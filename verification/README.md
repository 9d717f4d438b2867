# Xiuxiu

Push-to-talk voice dictation from the system tray. Hold the hotkey, talk,
release: what was said is typed into the focused window. Speech is transcribed by
a hosted Whisper service (Groq) or by a local model, and the backend can be
switched in the tray menu.

`src/` is the library, verified with Verus. It holds no I/O:

| module | what it decides |
|---|---|
| `config` | the settings from the environment and two `.env` files, and their validation |
| `hotkey` | the push-to-talk combination |
| `audio::capture` | when the microphone is open, and what a session records |
| `audio::preprocess` | which clips are worth transcribing, the downmix and the blocks for resampling |
| `transcription` | which backend is in use, and the errors of a transcription |
| `transcription::wav`, `groq` | the file that is uploaded, the request, and what a reply means |
| `transcription::local` | the transcript of a run of the local model |
| `inject` | what is typed: the transcript without control characters, in chunks, up to the first failure |
| `tray` | what the tray shows and which entry was chosen |
| `logging` | what is logged and shown in dialogs |
| `app` | the program as a whole, from events to effects |
| `text` | operations on text |

Each module ends with the laws it keeps, as proof functions named `law_*`. The
calls into other crates (`hound`, `dotenvy`, `global-hotkey` and parts of the
standard library) stand behind functions marked `external_body`, or behind
`assume_specification`, whose comments say what is taken on trust.

`app/` is the program around it: the event loop, the tray, the audio thread, the
network, the model, the keyboard and the log file. `tests/` runs the library.

## Settings

From environment variables, `%APPDATA%\xiuxiu\.env`, or a `.env` next to the
executable, the first of them the strongest.

| variable | meaning |
|---|---|
| `BACKEND` | `local` or `groq`; `groq` if not set |
| `GROQ_API_KEY` | the key for `groq` |
| `WHISPER_MODEL_PATH` | the ggml model file for `local` |
| `HOTKEY` | modifiers and a key joined by `+`; `Ctrl+Alt+Space` if not set |
