//! The capture of a clip.
//!
//! The microphone is open only between a start and the stop that follows it.
//! [`Recorder`] decides what each command asks of the audio device and keeps
//! track of whether it is open; [`SessionBuffer`] gathers what the device
//! delivers meanwhile.

use vstd::prelude::*;

verus! {

/// Why nothing can be recorded.
#[derive(Debug)]
pub enum AudioError {
    NoInputDevice,
    /// The device's configuration could not be queried or is not supported.
    Config(String),
    BuildStream(String),
}

/// What an [`AudioError`] holds.
pub enum AudioErrorView {
    NoInputDevice,
    Config(Seq<char>),
    BuildStream(Seq<char>),
}

impl View for AudioError {
    type V = AudioErrorView;

    open spec fn view(&self) -> AudioErrorView {
        match self {
            AudioError::NoInputDevice => AudioErrorView::NoInputDevice,
            AudioError::Config(m) => AudioErrorView::Config(m@),
            AudioError::BuildStream(m) => AudioErrorView::BuildStream(m@),
        }
    }
}

impl AudioErrorView {
    pub open spec fn spec_message(self) -> Seq<char> {
        match self {
            AudioErrorView::NoInputDevice => "no default input device (microphone) available"@,
            AudioErrorView::Config(m) => "could not query input device config: "@ + m,
            AudioErrorView::BuildStream(m) => "could not build input stream: "@ + m,
        }
    }
}

impl AudioError {
    /// The error in words.
    pub fn message(&self) -> (res: String)
        ensures
            res@ == self@.spec_message(),
    {
        match self {
            AudioError::NoInputDevice => "no default input device (microphone) available".to_owned(),
            AudioError::Config(e) => {
                let mut m = "could not query input device config: ".to_owned();
                m.append(e.as_str());
                m
            },
            AudioError::BuildStream(e) => {
                let mut m = "could not build input stream: ".to_owned();
                m.append(e.as_str());
                m
            },
        }
    }
}

/// A finished clip, with the channels interleaved as the device delivers them.
#[derive(Debug, Clone)]
pub struct CapturedAudio<S> {
    pub samples: Vec<S>,
    pub sample_rate: u32,
    pub channels: u16,
}

/// What a [`CapturedAudio`] holds.
pub struct ClipView<S> {
    pub samples: Seq<S>,
    pub sample_rate: u32,
    pub channels: u16,
}

impl<S> View for CapturedAudio<S> {
    type V = ClipView<S>;

    open spec fn view(&self) -> ClipView<S> {
        ClipView {
            samples: self.samples@,
            sample_rate: self.sample_rate,
            channels: self.channels,
        }
    }
}

/// The samples of one recording session.
pub struct SessionBuffer<S> {
    samples: Vec<S>,
}

impl<S> View for SessionBuffer<S> {
    type V = Seq<S>;

    closed spec fn view(&self) -> Seq<S> {
        self.samples@
    }
}

impl<S> Default for SessionBuffer<S> {
    fn default() -> (res: Self)
        ensures
            res@ == Seq::<S>::empty(),
    {
        SessionBuffer { samples: Vec::new() }
    }
}

impl<S> SessionBuffer<S> {
    /// Begins a session: what was gathered before is dropped.
    pub fn start(&mut self)
        ensures
            final(self)@ == Seq::<S>::empty(),
            final(self)@ == after_use(old(self)@, SessionOp::Start),
    {
        self.samples.clear();
    }

    /// Adds samples that need no conversion.
    pub fn push(&mut self, data: &[S]) where S: Copy
        ensures
            final(self)@ == old(self)@ + data@,
            final(self)@ == after_use(old(self)@, SessionOp::Push(data@)),
    {
        let mut copy = vstd::slice::slice_to_vec(data);
        self.samples.append(&mut copy);
    }

    /// Adds samples of another type, each converted by `convert`.
    pub fn push_converted<I: Copy, F: Fn(I) -> S>(&mut self, data: &[I], convert: F)
        requires
            forall|x: I| #[trigger] call_requires(convert, (x,)),
        ensures
            final(self)@.len() == old(self)@.len() + data@.len(),
            final(self)@.take(old(self)@.len() as int) == old(self)@,
            forall|i: int|
                0 <= i < data@.len() ==> call_ensures(
                    convert,
                    (data@[i],),
                    #[trigger] final(self)@[old(self)@.len() + i],
                ),
    {
        let ghost before = self.samples@;
        let mut i: usize = 0;
        while i < data.len()
            invariant
                forall|x: I| #[trigger] call_requires(convert, (x,)),
                before == old(self)@,
                i <= data@.len(),
                self.samples@.len() == before.len() + i,
                self.samples@.take(before.len() as int) == before,
                forall|k: int|
                    before.len() <= k < before.len() + i ==> call_ensures(
                        convert,
                        (data@[k - before.len()],),
                        #[trigger] self.samples@[k],
                    ),
            decreases data@.len() - i,
        {
            let ghost prev = self.samples@;
            let v = convert(data[i]);
            self.samples.push(v);
            proof {
                assert(self.samples@.take(before.len() as int) =~= prev.take(before.len() as int));
                assert forall|k: int|
                    before.len() <= k < before.len() + i + 1 implies call_ensures(
                    convert,
                    (data@[k - before.len()],),
                    #[trigger] self.samples@[k],
                ) by {
                    if k < before.len() + i {
                        assert(self.samples@[k] == prev[k]);
                    }
                }
            }
            i = i + 1;
        }
    }

    /// Adds signed 16-bit samples.
    pub fn push_i16<F: Fn(i16) -> S>(&mut self, data: &[i16], convert: F)
        requires
            forall|x: i16| #[trigger] call_requires(convert, (x,)),
        ensures
            final(self)@.len() == old(self)@.len() + data@.len(),
            final(self)@.take(old(self)@.len() as int) == old(self)@,
            forall|i: int|
                0 <= i < data@.len() ==> call_ensures(
                    convert,
                    (data@[i],),
                    #[trigger] final(self)@[old(self)@.len() + i],
                ),
    {
        self.push_converted(data, convert);
    }

    /// Adds unsigned 16-bit samples.
    pub fn push_u16<F: Fn(u16) -> S>(&mut self, data: &[u16], convert: F)
        requires
            forall|x: u16| #[trigger] call_requires(convert, (x,)),
        ensures
            final(self)@.len() == old(self)@.len() + data@.len(),
            final(self)@.take(old(self)@.len() as int) == old(self)@,
            forall|i: int|
                0 <= i < data@.len() ==> call_ensures(
                    convert,
                    (data@[i],),
                    #[trigger] final(self)@[old(self)@.len() + i],
                ),
    {
        self.push_converted(data, convert);
    }

    /// Hands out what was gathered and keeps nothing.
    pub fn take(&mut self) -> (res: Vec<S>)
        ensures
            res@ == old(self)@,
            final(self)@ == Seq::<S>::empty(),
            final(self)@ == after_use(old(self)@, SessionOp::Take),
    {
        let mut out: Vec<S> = Vec::new();
        std::mem::swap(&mut out, &mut self.samples);
        out
    }
}

/// A command to the audio thread.
#[derive(Debug, Clone, Copy, PartialEq, Eq, Structural)]
pub enum AudioCommand {
    Start,
    Stop,
    Shutdown,
}

/// What a command asks of the audio device.
#[derive(Debug, Clone, Copy, PartialEq, Eq, Structural)]
pub enum CaptureStep {
    /// Nothing.
    Ignore,
    /// Build a stream and start it, then report with [`Recorder::on_opened`].
    Open,
    /// Drop the stream and deliver what it recorded at this rate with this many
    /// channels.
    Close { sample_rate: u32, channels: u16 },
    /// Leave the command loop.
    Exit,
}

/// What came of building and starting a stream.
#[derive(Debug)]
pub enum OpenOutcome {
    /// The stream plays.
    Playing { sample_rate: u32, channels: u16 },
    /// No stream could be built.
    NotBuilt(AudioError),
    /// The stream was built but could not be started.
    NotStarted(String),
}

/// The state of the audio thread: the rate and the channels of the open stream,
/// where there is one.
pub struct Recorder {
    active: Option<(u32, u16)>,
}

impl View for Recorder {
    type V = Option<(u32, u16)>;

    closed spec fn view(&self) -> Option<(u32, u16)> {
        self.active
    }
}

/// What a command asks for while the stream is open or not.
pub open spec fn capture_step(active: Option<(u32, u16)>, command: AudioCommand) -> CaptureStep {
    match (command, active) {
        (AudioCommand::Start, None) => CaptureStep::Open,
        (AudioCommand::Start, Some(_)) => CaptureStep::Ignore,
        (AudioCommand::Stop, Some((sample_rate, channels))) => CaptureStep::Close {
            sample_rate,
            channels,
        },
        (AudioCommand::Stop, None) => CaptureStep::Ignore,
        (AudioCommand::Shutdown, _) => CaptureStep::Exit,
    }
}

/// The open stream after a command.
pub open spec fn after_command(active: Option<(u32, u16)>, command: AudioCommand) -> Option<
    (u32, u16),
> {
    if command == AudioCommand::Stop {
        None
    } else {
        active
    }
}

/// The open stream after the report that followed [`CaptureStep::Open`].
pub open spec fn after_open(outcome: OpenOutcome) -> Option<(u32, u16)> {
    match outcome {
        OpenOutcome::Playing { sample_rate, channels } => Some((sample_rate, channels)),
        _ => None,
    }
}

impl Recorder {
    /// No stream is open at first.
    pub fn new() -> (res: Recorder)
        ensures
            res@ is None,
    {
        Recorder { active: None }
    }

    /// Whether the microphone is open.
    pub fn is_open(&self) -> (res: bool)
        ensures
            res == self@ is Some,
    {
        self.active.is_some()
    }

    /// Takes a command. A start while the stream is open is ignored, and so is a
    /// stop while it is not.
    pub fn on_command(&mut self, command: AudioCommand) -> (res: CaptureStep)
        ensures
            res == capture_step(old(self)@, command),
            final(self)@ == after_command(old(self)@, command),
    {
        match command {
            AudioCommand::Start => {
                if self.active.is_some() {
                    CaptureStep::Ignore
                } else {
                    CaptureStep::Open
                }
            },
            AudioCommand::Stop => match self.active.take() {
                Some((sample_rate, channels)) => CaptureStep::Close { sample_rate, channels },
                None => CaptureStep::Ignore,
            },
            AudioCommand::Shutdown => CaptureStep::Exit,
        }
    }

    /// Takes the report on a stream that was to be opened, and says what to log
    /// of a failure.
    pub fn on_opened(&mut self, outcome: OpenOutcome) -> (res: Option<String>)
        requires
            old(self)@ is None,
        ensures
            final(self)@ == after_open(outcome),
            match outcome {
                OpenOutcome::Playing { .. } => res is None,
                OpenOutcome::NotBuilt(e) => res matches Some(m) && m@
                    == "failed to build audio stream: "@ + e@.spec_message(),
                OpenOutcome::NotStarted(e) => res matches Some(m) && m@
                    == "failed to start audio stream: "@ + e@,
            },
    {
        match outcome {
            OpenOutcome::Playing { sample_rate, channels } => {
                self.active = Some((sample_rate, channels));
                None
            },
            OpenOutcome::NotBuilt(e) => {
                let mut m = "failed to build audio stream: ".to_owned();
                m.append(e.message().as_str());
                Some(m)
            },
            OpenOutcome::NotStarted(e) => {
                let mut m = "failed to start audio stream: ".to_owned();
                m.append(e.as_str());
                Some(m)
            },
        }
    }
}

/// The clip with what is left of a session.
pub open spec fn clip_of<S>(
    session: Option<Vec<S>>,
    sample_rate: u32,
    channels: u16,
) -> ClipView<S> {
    ClipView {
        samples: match session {
            Some(samples) => samples@,
            None => Seq::empty(),
        },
        sample_rate,
        channels,
    }
}

/// The clip that a closed stream leaves: the session's samples, or none where the
/// session was lost.
pub fn finished_clip<S>(session: Option<Vec<S>>, sample_rate: u32, channels: u16) -> (res:
    CapturedAudio<S>)
    ensures
        res@ == (ClipView {
            samples: match session {
                Some(samples) => samples@,
                None => Seq::empty(),
            },
            sample_rate,
            channels,
        }),
        res@ == clip_of(session, sample_rate, channels),
{
    let samples = match session {
        Some(samples) => samples,
        None => Vec::new(),
    };
    CapturedAudio { samples, sample_rate, channels }
}

/// The configuration of the input device: `None` where there is no device, the
/// device's own error where it could not be queried.
pub fn device_config<C>(device: Option<Result<C, String>>) -> (res: Result<C, AudioError>)
    ensures
        match device {
            None => res matches Err(e) && e is NoInputDevice,
            Some(Err(m)) => res matches Err(e) && e@ == AudioErrorView::Config(m@),
            Some(Ok(c)) => res == Ok::<C, AudioError>(c),
        },
{
    match device {
        None => Err(AudioError::NoInputDevice),
        Some(Err(m)) => Err(AudioError::Config(m)),
        Some(Ok(c)) => Ok(c),
    }
}

/// The outcome of the probe at the start, where none means that the audio thread
/// ended before it.
pub fn probe_outcome(received: Option<Result<(), AudioError>>) -> (res: Result<(), AudioError>)
    ensures
        match received {
            Some(outcome) => res == outcome,
            None => res matches Err(e) && e is NoInputDevice,
        },
{
    match received {
        Some(outcome) => outcome,
        None => Err(AudioError::NoInputDevice),
    }
}

/// The sample formats that a device may deliver.
#[derive(Debug)]
pub enum DeviceFormat {
    Float32,
    Signed16,
    Unsigned16,
    /// Any other, by its name.
    Other(String),
}

/// How the samples of a stream are taken up.
#[derive(Debug, Clone, Copy, PartialEq, Eq, Structural)]
pub enum StreamKind {
    Float32,
    Signed16,
    Unsigned16,
}

/// How the samples of a device are taken up; other formats than three are not
/// supported.
pub fn stream_kind(format: DeviceFormat) -> (res: Result<StreamKind, AudioError>)
    ensures
        match format {
            DeviceFormat::Float32 => res == Ok::<StreamKind, AudioError>(StreamKind::Float32),
            DeviceFormat::Signed16 => res == Ok::<StreamKind, AudioError>(StreamKind::Signed16),
            DeviceFormat::Unsigned16 => res == Ok::<StreamKind, AudioError>(StreamKind::Unsigned16),
            DeviceFormat::Other(name) => res matches Err(e) && e@ == AudioErrorView::Config(
                "unsupported sample format: "@ + name@,
            ),
        },
{
    match format {
        DeviceFormat::Float32 => Ok(StreamKind::Float32),
        DeviceFormat::Signed16 => Ok(StreamKind::Signed16),
        DeviceFormat::Unsigned16 => Ok(StreamKind::Unsigned16),
        DeviceFormat::Other(name) => {
            let mut m = "unsupported sample format: ".to_owned();
            m.append(name.as_str());
            Err(AudioError::Config(m))
        },
    }
}

/// One command to the audio thread, with the report that follows where it opens
/// a stream.
pub struct Episode {
    pub command: AudioCommand,
    pub outcome: OpenOutcome,
}

/// The open stream after a list of commands.
pub open spec fn after_episodes(episodes: Seq<Episode>) -> Option<(u32, u16)>
    decreases episodes.len(),
{
    if episodes.len() == 0 {
        None
    } else {
        let before = after_episodes(episodes.drop_last());
        let last = episodes.last();
        if capture_step(before, last.command) is Open {
            after_open(last.outcome)
        } else {
            after_command(before, last.command)
        }
    }
}

/// The microphone is open only while a start has not been followed by a stop: if
/// it is open, the last start or stop was not a stop, and some start opened it.
pub proof fn law_microphone_open_only_while_recording(episodes: Seq<Episode>)
    requires
        after_episodes(episodes) is Some,
    ensures
        exists|k: int|
            {
                &&& 0 <= k < episodes.len()
                &&& (#[trigger] episodes[k]).command == AudioCommand::Start
                &&& after_open(episodes[k].outcome) == after_episodes(episodes)
                &&& forall|j: int|
                    k < j < episodes.len() ==> (#[trigger] episodes[j]).command
                        != AudioCommand::Stop
            },
    decreases episodes.len(),
{
    let n = episodes.len() - 1;
    let init = episodes.drop_last();
    let before = after_episodes(init);
    let last = episodes.last();
    assert(episodes[n] == last);
    if capture_step(before, last.command) is Open {
        assert(episodes[n].command == AudioCommand::Start);
    } else {
        law_microphone_open_only_while_recording(init);
        let k = choose|k: int|
            {
                &&& 0 <= k < init.len()
                &&& (#[trigger] init[k]).command == AudioCommand::Start
                &&& after_open(init[k].outcome) == after_episodes(init)
                &&& forall|j: int|
                    k < j < init.len() ==> (#[trigger] init[j]).command != AudioCommand::Stop
            };
        assert(episodes[k] == init[k]);
        assert forall|j: int| k < j < episodes.len() implies (#[trigger] episodes[j]).command
            != AudioCommand::Stop by {
            if j < n {
                assert(episodes[j] == init[j]);
            }
        }
    }
}

/// A stop closes the microphone, whatever went before.
pub proof fn law_stop_closes_the_microphone(episodes: Seq<Episode>)
    requires
        episodes.len() > 0,
        episodes.last().command == AudioCommand::Stop,
    ensures
        after_episodes(episodes) is None,
{
}

/// One use of a [`SessionBuffer`].
pub enum SessionOp<S> {
    Start,
    Push(Seq<S>),
    Take,
}

/// What a session buffer holds after one use.
pub open spec fn after_use<S>(held: Seq<S>, op: SessionOp<S>) -> Seq<S> {
    match op {
        SessionOp::Start => Seq::empty(),
        SessionOp::Push(data) => held + data,
        SessionOp::Take => Seq::empty(),
    }
}

/// What a session buffer holds after a list of uses.
pub open spec fn session<S>(ops: Seq<SessionOp<S>>) -> Seq<S>
    decreases ops.len(),
{
    if ops.len() == 0 {
        Seq::empty()
    } else {
        after_use(session(ops.drop_last()), ops.last())
    }
}

/// Deliveries one after the other.
pub open spec fn delivered<S>(data: Seq<Seq<S>>) -> Seq<S>
    decreases data.len(),
{
    if data.len() == 0 {
        Seq::empty()
    } else {
        delivered(data.drop_last()) + data.last()
    }
}

/// The uses that add deliveries to a session.
pub open spec fn pushes<S>(data: Seq<Seq<S>>) -> Seq<SessionOp<S>> {
    data.map_values(|d: Seq<S>| SessionOp::Push(d))
}

/// A session holds what was delivered since its start, in order, and nothing of
/// what went before. The same holds since the last take, and since the buffer was
/// made.
pub proof fn law_session_gathers_since_start<S>(earlier: Seq<SessionOp<S>>, data: Seq<Seq<S>>)
    requires
        earlier.len() == 0 || earlier.last() is Start || earlier.last() is Take,
    ensures
        session(earlier + pushes(data)) == delivered(data),
    decreases data.len(),
{
    let ops = earlier + pushes(data);
    if data.len() == 0 {
        assert(ops =~= earlier);
    } else {
        law_session_gathers_since_start(earlier, data.drop_last());
        assert(ops.drop_last() =~= earlier + pushes(data.drop_last()));
        assert(ops.last() == SessionOp::Push(data.last()));
    }
}

/// A stop asks for the clip with the rate and the channels of the stream that is
/// open: those that were reported when it was started, whatever commands other than
/// a stop came in between.
pub proof fn law_clip_has_the_format_of_its_stream(
    earlier: Seq<Episode>,
    start: Episode,
    later: Seq<Episode>,
    sample_rate: u32,
    channels: u16,
)
    requires
        after_episodes(earlier) is None,
        start.command == AudioCommand::Start,
        start.outcome == (OpenOutcome::Playing { sample_rate, channels }),
        forall|i: int| 0 <= i < later.len() ==> (#[trigger] later[i]).command != AudioCommand::Stop,
    ensures
        after_episodes(earlier.push(start) + later) == Some((sample_rate, channels)),
        capture_step(after_episodes(earlier.push(start) + later), AudioCommand::Stop) == (
        CaptureStep::Close { sample_rate, channels }),
    decreases later.len(),
{
    let all = earlier.push(start) + later;
    if later.len() == 0 {
        assert(all =~= earlier.push(start));
        assert(all.drop_last() =~= earlier);
    } else {
        let init = later.drop_last();
        assert forall|i: int| 0 <= i < init.len() implies (#[trigger] init[i]).command
            != AudioCommand::Stop by {
            assert(init[i] == later[i]);
        }
        law_clip_has_the_format_of_its_stream(earlier, start, init, sample_rate, channels);
        assert(all.drop_last() =~= earlier.push(start) + init);
        assert(all.last() == later[later.len() - 1]);
    }
}

/// A stream that was not built, or not started, is not open: a stop finds nothing to
/// hand over, and the next start tries again.
pub proof fn law_failed_start_leaves_nothing_open(earlier: Seq<Episode>, start: Episode)
    requires
        after_episodes(earlier) is None,
        start.command == AudioCommand::Start,
        !(start.outcome is Playing),
    ensures
        capture_step(after_episodes(earlier.push(start)), AudioCommand::Stop) is Ignore,
        capture_step(after_episodes(earlier.push(start)), AudioCommand::Start) is Open,
{
    assert(earlier.push(start).drop_last() =~= earlier);
}

/// The microphone is opened by a start while it is closed and by nothing else, a
/// clip is handed over by a stop while it is open and by nothing else, and the
/// thread ends by a shutdown and by nothing else.
pub proof fn law_each_command_has_its_step(active: Option<(u32, u16)>, command: AudioCommand)
    ensures
        capture_step(active, command) is Open <==> command == AudioCommand::Start && active is None,
        capture_step(active, command) is Close <==> command == AudioCommand::Stop && active is Some,
        capture_step(active, command) is Exit <==> command == AudioCommand::Shutdown,
        command == AudioCommand::Stop ==> after_command(active, command) is None,
        command != AudioCommand::Stop ==> after_command(active, command) == active,
{
}

/// A clip is seen as it is: all its samples in order, its rate and its channels.
pub proof fn law_clips_are_seen_whole<S>(clip: CapturedAudio<S>)
    ensures
        clip@.samples == clip.samples@,
        clip@.sample_rate == clip.sample_rate,
        clip@.channels == clip.channels,
{
}

/// An error is seen as it is, and in words it ends with the detail it holds, whole,
/// behind words that tell it from the others.
pub proof fn law_audio_errors_tell_the_detail(detail: String, other: String)
    ensures
        AudioError::NoInputDevice@ == AudioErrorView::NoInputDevice,
        AudioError::Config(detail)@ == AudioErrorView::Config(detail@),
        AudioError::BuildStream(detail)@ == AudioErrorView::BuildStream(detail@),
        AudioError::Config(detail)@.spec_message().skip(37) == detail@,
        AudioError::BuildStream(detail)@.spec_message().skip(30) == detail@,
        AudioError::Config(detail)@.spec_message().take(37) == AudioError::Config(
            other,
        )@.spec_message().take(37),
        AudioError::BuildStream(detail)@.spec_message().take(30) == AudioError::BuildStream(
            other,
        )@.spec_message().take(30),
        AudioError::Config(detail)@.spec_message() != AudioError::BuildStream(
            other,
        )@.spec_message(),
{
    reveal_strlit("could not query input device config: ");
    reveal_strlit("could not build input stream: ");
    let c = AudioError::Config(detail)@.spec_message();
    let b = AudioError::BuildStream(detail)@.spec_message();
    let d = AudioError::BuildStream(other)@.spec_message();
    assert(c.skip(37) =~= detail@);
    assert(b.skip(30) =~= detail@);
    assert(c.take(37) =~= AudioError::Config(other)@.spec_message().take(37));
    assert(b.take(30) =~= d.take(30));
    assert(c[10] != d[10]);
}

/// A session buffer keeps what is added, sample by sample, behind what it held, and a
/// start or a take leaves it empty.
pub proof fn law_session_appends<S>(held: Seq<S>, data: Seq<S>, i: int)
    requires
        0 <= i < held.len() + data.len(),
    ensures
        after_use(held, SessionOp::Push(data)).len() == held.len() + data.len(),
        i < held.len() ==> after_use(held, SessionOp::Push(data))[i] == held[i],
        i >= held.len() ==> after_use(held, SessionOp::Push(data))[i] == data[i - held.len()],
        after_use(held, SessionOp::Start).len() == 0,
        after_use(held, SessionOp::Take).len() == 0,
{
}

/// A finished clip has the samples of the session, all of them in order, and the rate
/// and the channels of the stream.
pub proof fn law_clip_holds_the_session<S>(samples: Vec<S>, sample_rate: u32, channels: u16)
    ensures
        clip_of(Some(samples), sample_rate, channels).samples == samples@,
        clip_of(None::<Vec<S>>, sample_rate, channels).samples.len() == 0,
        clip_of(Some(samples), sample_rate, channels).sample_rate == sample_rate,
        clip_of(Some(samples), sample_rate, channels).channels == channels,
        clip_of(None::<Vec<S>>, sample_rate, channels).sample_rate == sample_rate,
        clip_of(None::<Vec<S>>, sample_rate, channels).channels == channels,
{
}

}
