//! The hosted Whisper service: the request that uploads a clip, and what its
//! reply means.
//!
//! Sending the request, and turning a JSON body into values, is left to the
//! caller; everything that is decided before and after it is decided here.

use crate::config::Secret;
use crate::text;
use crate::transcription::wav;
use crate::transcription::wav::WavFormat;
use crate::transcription::{ErrorView, TranscribeError};
use vstd::prelude::*;

verus! {

pub const ENDPOINT: &'static str = "https://api.groq.com/openai/v1/audio/transcriptions";

pub const MODEL: &'static str = "whisper-large-v3-turbo";

/// The largest file that the service takes.
pub const MAX_UPLOAD_BYTES: usize = 25 * 1024 * 1024;

pub const CONNECT_TIMEOUT_SECS: u64 = 5;

pub const REQUEST_TIMEOUT_SECS: u64 = 15;

/// The format in which speech is uploaded: 16 kHz, mono, 16 bits.
pub open spec fn speech() -> WavFormat {
    WavFormat { channels: 1, sample_rate: 16_000, bits_per_sample: 16 }
}

/// Encodes 16-bit samples at 16 kHz as a mono WAV file.
pub fn encode_wav_16k_mono(samples: &[i16]) -> (res: Result<Vec<u8>, TranscribeError>)
    requires
        samples@.len() <= wav::MAX_WAV_SAMPLES,
    ensures
        res matches Ok(bytes) && bytes@ == wav::wav_file(speech(), samples@),
{
    let format = WavFormat { channels: 1, sample_rate: 16_000, bits_per_sample: 16 };
    proof {
        assert(format.sample_rate * 2 * format.channels == 32_000) by (nonlinear_arith)
            requires
                format.sample_rate == 16_000,
                format.channels == 1,
        ;
    }
    wav::write_wav(format, samples)
}

/// Refuses a file that is too large to upload.
pub fn check_upload_size(wav: Vec<u8>) -> (res: Result<Vec<u8>, TranscribeError>)
    ensures
        wav@.len() <= MAX_UPLOAD_BYTES ==> (res matches Ok(w) && w@ == wav@),
        wav@.len() > MAX_UPLOAD_BYTES ==> (res matches Err(e) && e == TranscribeError::TooLarge(
            wav@.len() as usize,
        )),
{
    if wav.len() > MAX_UPLOAD_BYTES {
        Err(TranscribeError::TooLarge(wav.len()))
    } else {
        Ok(wav)
    }
}

/// A request to transcribe a clip: a multipart form that is posted with a bearer
/// token.
pub struct UploadRequest {
    pub endpoint: &'static str,
    pub bearer: Secret,
    /// The name of the part that holds the file, and the file's own name and
    /// type.
    pub file_part: &'static str,
    pub file_name: &'static str,
    pub file_type: &'static str,
    pub file: Vec<u8>,
    /// The text parts, in their order.
    pub fields: Vec<(&'static str, &'static str)>,
}

impl UploadRequest {
    /// Whether this is the request that uploads `file` with `key`.
    pub open spec fn uploads(self, key: Seq<char>, file: Seq<u8>) -> bool {
        &&& self.endpoint@ == ENDPOINT@
        &&& self.bearer@ == key
        &&& self.file_part@ == "file"@
        &&& self.file_name@ == "audio.wav"@
        &&& self.file_type@ == "audio/wav"@
        &&& self.file@ == file
        &&& self.fields@.len() == 3
        &&& self.fields@[0].0@ == "model"@ && self.fields@[0].1@ == MODEL@
        &&& self.fields@[1].0@ == "response_format"@ && self.fields@[1].1@ == "json"@
        &&& self.fields@[2].0@ == "language"@ && self.fields@[2].1@ == "en"@
    }
}

/// The request that uploads a file.
pub fn upload_request(api_key: &Secret, file: Vec<u8>) -> (res: UploadRequest)
    ensures
        res.uploads(api_key@, file@),
{
    let mut fields: Vec<(&'static str, &'static str)> = Vec::new();
    fields.push(("model", MODEL));
    fields.push(("response_format", "json"));
    fields.push(("language", "en"));
    UploadRequest {
        endpoint: ENDPOINT,
        bearer: api_key.clone(),
        file_part: "file",
        file_name: "audio.wav",
        file_type: "audio/wav",
        file,
        fields,
    }
}

/// Prepares the upload of a clip: its samples as a WAV file, unless that is too
/// large.
pub fn prepare_upload(api_key: &Secret, samples: &[i16]) -> (res: Result<
    UploadRequest,
    TranscribeError,
>)
    requires
        samples@.len() <= wav::MAX_WAV_SAMPLES,
    ensures
        44 + 2 * samples@.len() <= MAX_UPLOAD_BYTES ==> (res matches Ok(request)
            && request.uploads(api_key@, wav::wav_file(speech(), samples@))),
        44 + 2 * samples@.len() > MAX_UPLOAD_BYTES ==> (res matches Err(e) && e
            == TranscribeError::TooLarge((44 + 2 * samples@.len()) as usize)),
{
    let encoded = match encode_wav_16k_mono(samples) {
        Ok(w) => w,
        Err(e) => return Err(e),
    };
    proof {
        wav::law_wav_length(speech(), samples@);
    }
    match check_upload_size(encoded) {
        Ok(w) => Ok(upload_request(api_key, w)),
        Err(e) => Err(e),
    }
}

/// The error for a request that got no reply.
pub fn map_reqwest_error(timed_out: bool, message: String) -> (res: TranscribeError)
    ensures
        res@ == (if timed_out {
            ErrorView::Timeout
        } else {
            ErrorView::Network(message@)
        }),
{
    if timed_out {
        TranscribeError::Timeout
    } else {
        TranscribeError::Network(message)
    }
}

/// Whether a status means that the body holds a transcript.
pub open spec fn success_status(status: u16) -> bool {
    200 <= status < 300
}

/// Whether a status means that the body holds a transcript.
pub fn is_success(status: u16) -> (res: bool)
    ensures
        res == success_status(status),
{
    200 <= status && status < 300
}

/// The error that a status without success stands for.
pub open spec fn classified(code: u16, retry_after: Option<u64>, message: Seq<char>) -> ErrorView {
    if code == 401 || code == 403 {
        ErrorView::Auth(message)
    } else if code == 413 {
        ErrorView::TooLarge(0)
    } else if code == 429 {
        ErrorView::RateLimited { retry_after, message }
    } else if 500 <= code <= 599 {
        ErrorView::Server(message)
    } else {
        ErrorView::Http(code, message)
    }
}

/// The error for a reply without success. `envelope` is the message in the
/// body's error envelope, where the body is one; without it the body itself is
/// the message.
pub fn classify_error(
    code: u16,
    retry_after: Option<u64>,
    envelope: Option<String>,
    body: String,
) -> (res: TranscribeError)
    ensures
        res@ == classified(
            code,
            retry_after,
            match envelope {
                Some(m) => m@,
                None => body@,
            },
        ),
{
    let message = match envelope {
        Some(m) => m,
        None => body,
    };
    if code == 401 || code == 403 {
        TranscribeError::Auth(message)
    } else if code == 413 {
        TranscribeError::TooLarge(0)
    } else if code == 429 {
        TranscribeError::RateLimited { retry_after, message }
    } else if 500 <= code && code <= 599 {
        TranscribeError::Server(message)
    } else {
        TranscribeError::Http(code, message)
    }
}

/// The transcript in a reply with success, or the error that its body could not
/// be decoded.
pub fn transcript(decoded: Result<String, String>) -> (res: Result<String, TranscribeError>)
    ensures
        match decoded {
            Ok(t) => res matches Ok(r) && r@ == text::trimmed(t@),
            Err(m) => res matches Err(e) && e@ == ErrorView::Decode(m@),
        },
{
    match decoded {
        Ok(t) => Ok(text::trim(t.as_str())),
        Err(m) => Err(TranscribeError::Decode(m)),
    }
}

/// The seconds in a `Retry-After` header, where it writes a number of them.
pub fn retry_after(header: Option<&str>) -> (res: Option<u64>)
    ensures
        res == match header {
            Some(h) => text::number_in(h@),
            None => None,
        },
{
    match header {
        Some(h) => text::parse_number(h),
        None => None,
    }
}

/// A reply of the service, its body already decoded as its status asks for.
pub enum Reply {
    /// The transcript in the body, or why there is none.
    Success(Result<String, String>),
    Failure {
        /// The `Retry-After` header, where it is readable.
        retry_after: Option<String>,
        /// The message in the error envelope, where the body is one.
        envelope: Option<String>,
        body: String,
    },
}

/// What a reply means: the trimmed transcript, or an error.
pub open spec fn meaning(status: u16, reply: Reply) -> Result<Seq<char>, ErrorView> {
    match reply {
        Reply::Success(Ok(t)) => Ok(text::trimmed(t@)),
        Reply::Success(Err(m)) => Err(ErrorView::Decode(m@)),
        Reply::Failure { retry_after, envelope, body } => Err(
            classified(
                status,
                match retry_after {
                    Some(h) => text::number_in(h@),
                    None => None,
                },
                match envelope {
                    Some(m) => m@,
                    None => body@,
                },
            ),
        ),
    }
}

/// What a reply means: the trimmed transcript, or an error.
pub fn interpret_reply(status: u16, reply: Reply) -> (res: Result<String, TranscribeError>)
    requires
        reply is Success <==> success_status(status),
    ensures
        match meaning(status, reply) {
            Ok(t) => res matches Ok(r) && r@ == t,
            Err(e) => res matches Err(f) && f@ == e,
        },
        res is Ok ==> success_status(status),
        match reply {
            Reply::Success(Ok(t)) => res matches Ok(r) && r@ == text::trimmed(t@),
            Reply::Success(Err(m)) => res matches Err(e) && e@ == ErrorView::Decode(m@),
            Reply::Failure { retry_after, envelope, body } => res matches Err(e) && e@
                == classified(
                status,
                match retry_after {
                    Some(h) => text::number_in(h@),
                    None => None,
                },
                match envelope {
                    Some(m) => m@,
                    None => body@,
                },
            ),
        },
{
    match reply {
        Reply::Success(decoded) => transcript(decoded),
        Reply::Failure { retry_after: header, envelope, body } => {
            let seconds = match &header {
                Some(h) => retry_after(Some(h.as_str())),
                None => None,
            };
            Err(classify_error(status, seconds, envelope, body))
        },
    }
}

/// Only a rate limit carries the time after which to try again; every other
/// error is the same whatever the header said.
pub proof fn law_only_rate_limits_carry_retry_after(
    code: u16,
    retry_after: Option<u64>,
    other: Option<u64>,
    message: Seq<char>,
)
    ensures
        code != 429 ==> classified(code, retry_after, message) == classified(code, other, message),
        classified(code, retry_after, message) is RateLimited <==> code == 429,
        code == 429 ==> classified(code, retry_after, message)->RateLimited_retry_after
            == retry_after,
{
}

/// What cannot be uploaded is exactly a clip of more than 13,107,178 samples, a
/// little over thirteen and a half minutes.
pub proof fn law_upload_limit_in_samples(samples: Seq<i16>)
    ensures
        wav::wav_file(speech(), samples).len() > MAX_UPLOAD_BYTES <==> samples.len() > 13_107_178,
{
    wav::law_wav_length(speech(), samples);
}

/// What a failed reply means goes by its status alone, and its message is kept whole
/// where the error holds one.
pub proof fn law_errors_by_status(code: u16, retry_after: Option<u64>, message: Seq<char>)
    ensures
        code == 401 || code == 403 <==> classified(code, retry_after, message) is Auth,
        code == 413 <==> classified(code, retry_after, message) is TooLarge,
        code == 429 <==> classified(code, retry_after, message) is RateLimited,
        500 <= code < 600 <==> classified(code, retry_after, message) is Server,
        classified(code, retry_after, message) matches ErrorView::Auth(m) ==> m == message,
        classified(code, retry_after, message) matches ErrorView::Server(m) ==> m == message,
        classified(code, retry_after, message) matches ErrorView::TooLarge(n) ==> n == 0,
        classified(code, retry_after, message) matches ErrorView::RateLimited {
            retry_after: r,
            message: m,
        } ==> r == retry_after && m == message,
        !(classified(code, retry_after, message) is Auth || classified(code, retry_after, message)
            is TooLarge || classified(code, retry_after, message) is RateLimited || classified(
            code,
            retry_after,
            message,
        ) is Server) ==> classified(code, retry_after, message) == ErrorView::Http(code, message),
{
}

/// A status is a success if and only if its first of three digits is a two.
pub proof fn law_success_by_status(status: u16)
    ensures
        success_status(status) <==> status / 100 == 2,
{
}

/// A request uploads the file, byte for byte, under the key, character for
/// character, to the one endpoint.
pub proof fn law_request_holds_file_and_key(
    request: UploadRequest,
    key: Seq<char>,
    file: Seq<u8>,
)
    requires
        request.uploads(key, file),
    ensures
        request.file@ == file,
        request.bearer@ == key,
        request.endpoint@ == "https://api.groq.com/openai/v1/audio/transcriptions"@,
        request.file_part@ == "file"@,
        request.fields@.len() == 3,
        request.fields@[0].1@ == "whisper-large-v3-turbo"@,
        request.fields@[1].1@ == "json"@,
        request.fields@[2].1@ == "en"@,
{
}

/// What is uploaded is the samples as they are: mono, 16 bits each, 16000 a second.
pub proof fn law_upload_holds_the_speech(samples: Seq<i16>, i: int)
    requires
        0 <= i < samples.len(),
    ensures
        wav::sample_in(wav::wav_file(speech(), samples), 44 + 2 * i) == samples[i],
        speech().channels == 1,
        speech().sample_rate == 16_000,
        speech().bits_per_sample == 16,
{
    wav::law_wav_holds_the_samples(speech(), samples, i);
}

/// The transcript of a successful reply is its text, but for white space at its ends;
/// a body that could not be decoded is a decoding error with the reason, whole.
pub proof fn law_successful_reply_is_the_transcript(status: u16, t: String, reason: String) -> (
    range: (int, int))
    ensures
        0 <= range.0 <= range.1 <= t@.len(),
        meaning(status, Reply::Success(Ok(t))) == Ok::<Seq<char>, ErrorView>(
            t@.subrange(range.0, range.1),
        ),
        forall|i: int|
            0 <= i < t@.len() && !(range.0 <= i < range.1) ==> text::is_white(#[trigger] t@[i]),
        meaning(status, Reply::Success(Err(reason))) == Err::<Seq<char>, ErrorView>(
            ErrorView::Decode(reason@),
        ),
{
    text::law_trim_cuts_white_space(t@)
}

/// A failed reply is told by the message of its envelope, or by its body where it has
/// none. A server error, whatever its status, shows it whole; a rate limit also holds
/// the number of seconds that its header writes.
pub proof fn law_failed_reply_is_told(
    status: u16,
    header: String,
    secs: u64,
    message: String,
    body: String,
)
    requires
        text::number_in(header@) == Some(secs),
    ensures
        ({
            let enveloped = meaning(
                status,
                Reply::Failure {
                    retry_after: Some(header),
                    envelope: Some(message),
                    body,
                },
            );
            let bare = meaning(
                status,
                Reply::Failure { retry_after: None, envelope: None, body },
            );
            &&& enveloped is Err && bare is Err
            &&& 500 <= status < 600 ==> enveloped->Err_0 == ErrorView::Server(message@)
                && bare->Err_0 == ErrorView::Server(body@)
            &&& status == 401 || status == 403 ==> enveloped->Err_0 == ErrorView::Auth(message@)
                && bare->Err_0 == ErrorView::Auth(body@)
            &&& status == 429 ==> enveloped->Err_0 == (ErrorView::RateLimited {
                retry_after: Some(secs),
                message: message@,
            }) && bare->Err_0 == (ErrorView::RateLimited { retry_after: None, message: body@ })
        }),
{
}

/// The service is given five seconds to connect and fifteen in all.
pub proof fn law_timeouts()
    ensures
        CONNECT_TIMEOUT_SECS == 5,
        REQUEST_TIMEOUT_SECS == 15,
{
}

}
