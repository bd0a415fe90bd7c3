//! The course of a voice session, and the framing of its audio.
//!
//! The peer connection, the signaling requests and the microphone belong to
//! the program around the library: it reports what they do, and carries out
//! the action that follows.

use vstd::prelude::*;

use crate::http::{status_name, status_text};
use crate::text::{chars_of, extend, string_of};

verus! {

pub const AUDIO_RATE: u32 = 48_000;

/// Samples of one packet: twenty milliseconds.
pub const FRAME_SAMPLES: usize = 960;

pub const GATHER_TIMEOUT_S: u64 = 15;

pub const CONNECT_TIMEOUT_S: u64 = 20;

/// What a voice session reports.
#[derive(Debug, PartialEq)]
pub enum VoiceEvent {
    Connected,
    Error(String),
    Stopped,
}

pub open spec fn hex_digit(c: char) -> bool {
    '0' <= c <= '9' || 'a' <= c <= 'f' || 'A' <= c <= 'F'
}

/// Where a session identifier has its hyphens.
pub open spec fn hyphen_at(i: int) -> bool {
    i == 8 || i == 13 || i == 18 || i == 23
}

/// A session identifier: hexadecimal digits in five groups, as a UUID has.
pub open spec fn session_id(id: Seq<char>) -> bool {
    &&& id.len() == 36
    &&& forall|i: int|
        0 <= i < 36 ==> if hyphen_at(i) {
            #[trigger] id[i] == '-'
        } else {
            hex_digit(id[i])
        }
}

/// Whether the server named its session properly.
pub fn valid_session_id(id: &str) -> (r: bool)
    ensures
        r == session_id(id@),
{
    let chars: Vec<char> = chars_of(id);
    if chars.len() != 36 {
        return false;
    }
    let mut i: usize = 0;
    while i < 36
        invariant
            i <= 36,
            chars@.len() == 36,
            chars@ == id@,
            forall|j: int|
                0 <= j < i ==> if hyphen_at(j) {
                    #[trigger] chars@[j] == '-'
                } else {
                    hex_digit(chars@[j])
                },
        decreases 36 - i,
    {
        let c: char = chars[i];
        let ok: bool = if i == 8 || i == 13 || i == 18 || i == 23 {
            c == '-'
        } else {
            ('0' <= c && c <= '9') || ('a' <= c && c <= 'f') || ('A' <= c && c <= 'F')
        };
        if !ok {
            assert(chars@[i as int] == id@[i as int]);
            return false;
        }
        i += 1;
    }
    true
}

/// A session as the server describes it.
#[derive(Debug, PartialEq)]
pub struct SessionAnswer {
    pub session_id: String,
    pub answer_sdp: String,
}

/// Why the server gave no session.
#[derive(Clone, Copy, Debug, PartialEq, Eq, Structural)]
pub enum SignalingError {
    /// The request could not be sent.
    RequestFailed,
    AlreadyActive,
    HttpStatus(u16),
    InvalidAnswer,
    InvalidSessionId,
}

/// What a signaling answer lacks, given what its body says.
pub open spec fn signaling_problem(
    status: u16,
    answer: Option<SessionAnswer>,
) -> Option<SignalingError> {
    if status == 409 {
        Some(SignalingError::AlreadyActive)
    } else if status != 201 {
        Some(SignalingError::HttpStatus(status))
    } else {
        match answer {
            None => Some(SignalingError::InvalidAnswer),
            Some(answer) => if session_id(answer.session_id@) {
                None
            } else {
                Some(SignalingError::InvalidSessionId)
            },
        }
    }
}

/// Judge a signaling answer by its status and what its body says.
pub fn judge_session(status: u16, answer: Option<SessionAnswer>) -> (r: Result<
    SessionAnswer,
    SignalingError,
>)
    ensures
        match r {
            Ok(session) => signaling_problem(status, answer) is None && answer == Some(session),
            Err(e) => signaling_problem(status, answer) == Some(e),
        },
{
    if status == 409 {
        return Err(SignalingError::AlreadyActive);
    }
    if status != 201 {
        return Err(SignalingError::HttpStatus(status));
    }
    match answer {
        None => Err(SignalingError::InvalidAnswer),
        Some(session) => if valid_session_id(&session.session_id) {
            Ok(session)
        } else {
            Err(SignalingError::InvalidSessionId)
        },
    }
}

/// The route that deletes a session.
pub fn session_route(session: &str) -> (r: String)
    ensures
        r@ == "/v1/assistant/sessions/"@ + session@,
{
    let mut out: Vec<char> = chars_of("/v1/assistant/sessions/");
    extend(&mut out, &chars_of(session));
    string_of(&out)
}

/// The sample that two bytes spell, little end first.
pub open spec fn sample_of(low: u8, high: u8) -> i16 {
    (low + 256 * (if high < 128 {
        high as int
    } else {
        high - 256
    })) as i16
}

/// The whole samples of a chunk.
pub open spec fn samples_in(chunk: Seq<u8>) -> Seq<i16> {
    Seq::new(chunk.len() / 2, |i: int| sample_of(chunk[2 * i], chunk[2 * i + 1]))
}

/// Frames end to end.
pub open spec fn frames_joined(frames: Seq<Vec<i16>>) -> Seq<i16>
    decreases frames.len(),
{
    if frames.len() == 0 {
        Seq::empty()
    } else {
        frames_joined(frames.drop_last()) + frames.last()@
    }
}

/// Cuts microphone chunks into packets of equal length.
pub struct FrameAssembler {
    pending: Vec<i16>,
}

impl View for FrameAssembler {
    type V = Seq<i16>;

    closed spec fn view(&self) -> Seq<i16> {
        self.pending@
    }
}

fn read_sample(low: u8, high: u8) -> (r: i16)
    ensures
        r == sample_of(low, high),
{
    let top: i32 = if high < 128 {
        high as i32
    } else {
        high as i32 - 256
    };
    (low as i32 + 256 * top) as i16
}

impl FrameAssembler {
    pub fn new() -> (r: Self)
        ensures
            r@ == Seq::<i16>::empty(),
    {
        FrameAssembler { pending: Vec::new() }
    }

    /// Take a chunk; the frames that are complete now come back. Nothing is
    /// lost and the order stays: a trailing odd byte alone does not count.
    pub fn push(&mut self, chunk: &[u8]) -> (r: Vec<Vec<i16>>)
        requires
            old(self)@.len() < FRAME_SAMPLES,
        ensures
            final(self)@.len() < FRAME_SAMPLES,
            forall|i: int| 0 <= i < r@.len() ==> (#[trigger] r@[i])@.len() == FRAME_SAMPLES,
            frames_joined(r@) + final(self)@ == old(self)@ + samples_in(chunk@),
    {
        let mut frames: Vec<Vec<i16>> = Vec::new();
        let ghost start = self.pending@;
        let ghost samples = samples_in(chunk@);
        let len: usize = chunk.len();
        let count: usize = len / 2;
        let mut i: usize = 0;
        assert(frames_joined(frames@) + self.pending@ =~= start + samples.take(0));
        while i < count
            invariant
                i <= count,
                len == chunk@.len(),
                count == len / 2,
                samples == samples_in(chunk@),
                self.pending@.len() < FRAME_SAMPLES,
                forall|j: int|
                    0 <= j < frames@.len() ==> (#[trigger] frames@[j])@.len() == FRAME_SAMPLES,
                frames_joined(frames@) + self.pending@ == start + samples.take(i as int),
            decreases count - i,
        {
            let ghost before_frames = frames@;
            let ghost before = self.pending@;
            let sample: i16 = read_sample(chunk[2 * i], chunk[2 * i + 1]);
            assert(sample == samples[i as int]);
            self.pending.push(sample);
            assert(samples.take(i + 1) =~= samples.take(i as int).push(sample));
            assert(frames_joined(before_frames) + self.pending@ =~= (frames_joined(before_frames)
                + before).push(sample));
            assert((start + samples.take(i as int)).push(sample) =~= start + samples.take(i + 1));
            if self.pending.len() == FRAME_SAMPLES {
                let mut frame: Vec<i16> = Vec::new();
                frame.append(&mut self.pending);
                let ghost full = frame@;
                frames.push(frame);
                assert(frames@.drop_last() =~= before_frames);
                assert(frames_joined(frames@) + self.pending@ =~= frames_joined(before_frames)
                    + full);
            }
            i += 1;
        }
        assert(samples.take(i as int) =~= samples);
        frames
    }
}

/// Why a voice session failed.
#[derive(Clone, Copy, Debug, PartialEq, Eq, Structural)]
pub enum VoiceError {
    /// The offer could not be made.
    OfferFailed,
    GatherTimedOut,
    GatherStopped,
    NoLocalDescription,
    Signaling(SignalingError),
    AnswerNotApplied,
    ConnectionFailed,
    ConnectionTimedOut,
    NoCodec,
    NoSsrc,
    /// The microphone could not be opened.
    CaptureFailed,
    ConnectionClosed,
    MicrophoneStopped,
    /// A packet could not be encoded or sent.
    SendFailed,
}

impl VoiceError {
    pub open spec fn text(self) -> Seq<char> {
        match self {
            VoiceError::OfferFailed => "voice offer could not be made"@,
            VoiceError::GatherTimedOut => "voice ICE gathering timed out"@,
            VoiceError::GatherStopped => "voice ICE gathering stopped"@,
            VoiceError::NoLocalDescription => "voice offer has no local description"@,
            VoiceError::Signaling(SignalingError::RequestFailed) => "assistant signaling failed"@,
            VoiceError::Signaling(SignalingError::AlreadyActive) =>
                "assistant already has an active voice session"@,
            VoiceError::Signaling(SignalingError::HttpStatus(status)) =>
                "assistant signaling returned HTTP "@ + status_name(status),
            VoiceError::Signaling(SignalingError::InvalidAnswer) =>
                "assistant signaling returned invalid answer"@,
            VoiceError::Signaling(SignalingError::InvalidSessionId) =>
                "assistant returned an invalid session identifier"@,
            VoiceError::AnswerNotApplied => "voice answer could not be applied"@,
            VoiceError::ConnectionFailed => "voice peer connection failed"@,
            VoiceError::ConnectionTimedOut => "voice connection timed out"@,
            VoiceError::NoCodec => "voice sender has no negotiated codec"@,
            VoiceError::NoSsrc => "voice sender has no SSRC"@,
            VoiceError::CaptureFailed => "microphone could not be opened"@,
            VoiceError::ConnectionClosed => "voice peer connection closed"@,
            VoiceError::MicrophoneStopped => "microphone stopped"@,
            VoiceError::SendFailed => "voice audio could not be sent"@,
        }
    }

    pub fn message(&self) -> (r: String)
        ensures
            r@ == self.text(),
    {
        if let VoiceError::Signaling(SignalingError::HttpStatus(status)) = self {
            let mut out: Vec<char> = chars_of("assistant signaling returned HTTP ");
            extend(&mut out, &status_text(*status));
            return string_of(&out);
        }
        let text: &'static str = match self {
            VoiceError::OfferFailed => "voice offer could not be made",
            VoiceError::GatherTimedOut => "voice ICE gathering timed out",
            VoiceError::GatherStopped => "voice ICE gathering stopped",
            VoiceError::NoLocalDescription => "voice offer has no local description",
            VoiceError::Signaling(SignalingError::RequestFailed) => "assistant signaling failed",
            VoiceError::Signaling(SignalingError::AlreadyActive) =>
                "assistant already has an active voice session",
            VoiceError::Signaling(SignalingError::HttpStatus(_)) => "",
            VoiceError::Signaling(SignalingError::InvalidAnswer) =>
                "assistant signaling returned invalid answer",
            VoiceError::Signaling(SignalingError::InvalidSessionId) =>
                "assistant returned an invalid session identifier",
            VoiceError::AnswerNotApplied => "voice answer could not be applied",
            VoiceError::ConnectionFailed => "voice peer connection failed",
            VoiceError::ConnectionTimedOut => "voice connection timed out",
            VoiceError::NoCodec => "voice sender has no negotiated codec",
            VoiceError::NoSsrc => "voice sender has no SSRC",
            VoiceError::CaptureFailed => "microphone could not be opened",
            VoiceError::ConnectionClosed => "voice peer connection closed",
            VoiceError::MicrophoneStopped => "microphone stopped",
            VoiceError::SendFailed => "voice audio could not be sent",
        };
        text.to_owned()
    }
}

/// Where a voice session stands.
#[derive(Clone, Copy, Debug, PartialEq, Eq, Structural)]
pub enum VoicePhase {
    /// The offer is being made.
    Preparing,
    /// Candidates are being gathered.
    Gathering,
    /// The local description is being read.
    Describing,
    /// The server is being asked for a session.
    Signaling,
    /// The server's answer is being applied.
    Applying,
    Connecting,
    /// The microphone is being opened.
    StartingAudio,
    Streaming,
    ClosingPeer,
    DeletingSession,
    Done,
}

/// What a peer connection reports of itself.
#[derive(Clone, Copy, Debug, PartialEq, Eq, Structural)]
pub enum PeerState {
    Connected,
    Failed,
    Closed,
    /// The connection will report nothing more.
    Gone,
    Other,
}

/// What happens to a voice session.
#[derive(Debug, PartialEq)]
pub enum VoiceInput {
    StopRequested,
    OfferMade,
    OfferFailed,
    Gathered,
    GatherTimedOut,
    GatherStopped,
    Described,
    NotDescribed,
    SessionCreated { session_id: String },
    SessionRefused(SignalingError),
    AnswerApplied,
    AnswerRefused,
    Peer(PeerState),
    ConnectTimedOut,
    AudioStarted,
    AudioFailed(VoiceError),
    MicrophoneStopped,
    SendFailed,
    PeerClosed,
    SessionDeleted,
}

/// What a voice session does next.
#[derive(Debug, PartialEq)]
pub enum VoiceAction {
    /// Go on waiting for what the phase waits for.
    Wait,
    MakeOffer,
    WaitForCandidates,
    ReadDescription,
    CreateSession,
    ApplyAnswer,
    WaitForConnection,
    /// Report the connection and open the microphone.
    StartAudio,
    Stream,
    /// Stop the microphone, if it is open, and close the peer connection.
    ClosePeer,
    DeleteSession { session_id: String },
    /// Report the failure, if there is one, and that the session stopped.
    Finish(Option<VoiceError>),
}

/// The course of one voice session.
pub struct VoiceRun {
    pub phase: VoicePhase,
    pub stop: bool,
    /// The server's session, once it has a name.
    pub session: Option<String>,
    pub failure: Option<VoiceError>,
}

/// What a `VoiceRun` holds.
pub struct VoiceRunView {
    pub phase: VoicePhase,
    pub stop: bool,
    pub session: Option<Seq<char>>,
    pub failure: Option<VoiceError>,
}

impl View for VoiceRun {
    type V = VoiceRunView;

    open spec fn view(&self) -> VoiceRunView {
        VoiceRunView {
            phase: self.phase,
            stop: self.stop,
            session: match self.session {
                Some(id) => Some(id@),
                None => None,
            },
            failure: self.failure,
        }
    }
}

/// What a `VoiceAction` holds.
pub enum VoiceActionView {
    Wait,
    MakeOffer,
    WaitForCandidates,
    ReadDescription,
    CreateSession,
    ApplyAnswer,
    WaitForConnection,
    StartAudio,
    Stream,
    ClosePeer,
    DeleteSession { session_id: Seq<char> },
    Finish(Option<VoiceError>),
}

impl View for VoiceAction {
    type V = VoiceActionView;

    open spec fn view(&self) -> VoiceActionView {
        match *self {
            VoiceAction::Wait => VoiceActionView::Wait,
            VoiceAction::MakeOffer => VoiceActionView::MakeOffer,
            VoiceAction::WaitForCandidates => VoiceActionView::WaitForCandidates,
            VoiceAction::ReadDescription => VoiceActionView::ReadDescription,
            VoiceAction::CreateSession => VoiceActionView::CreateSession,
            VoiceAction::ApplyAnswer => VoiceActionView::ApplyAnswer,
            VoiceAction::WaitForConnection => VoiceActionView::WaitForConnection,
            VoiceAction::StartAudio => VoiceActionView::StartAudio,
            VoiceAction::Stream => VoiceActionView::Stream,
            VoiceAction::ClosePeer => VoiceActionView::ClosePeer,
            VoiceAction::DeleteSession { session_id } => VoiceActionView::DeleteSession {
                session_id: session_id@,
            },
            VoiceAction::Finish(failure) => VoiceActionView::Finish(failure),
        }
    }
}

impl VoiceRunView {
    pub open spec fn to(self, phase: VoicePhase, action: VoiceActionView) -> (
        VoiceRunView,
        VoiceActionView,
    ) {
        (VoiceRunView { phase, ..self }, action)
    }

    pub open spec fn waiting(self) -> (VoiceRunView, VoiceActionView) {
        (self, VoiceActionView::Wait)
    }

    /// The session is over, for better or worse: the peer is closed first.
    pub open spec fn ending(self, failure: Option<VoiceError>) -> (VoiceRunView, VoiceActionView) {
        (
            VoiceRunView { phase: VoicePhase::ClosingPeer, failure, ..self },
            VoiceActionView::ClosePeer,
        )
    }

    /// Go on, unless a stop was requested meanwhile.
    pub open spec fn unless_stopped(self, phase: VoicePhase, action: VoiceActionView) -> (
        VoiceRunView,
        VoiceActionView,
    ) {
        if self.stop {
            self.ending(None)
        } else {
            self.to(phase, action)
        }
    }

    /// The session after an input, and what it does next.
    pub open spec fn after(self, input: VoiceInput) -> (VoiceRunView, VoiceActionView) {
        let run = VoiceRunView { stop: self.stop || input is StopRequested, ..self };
        match (self.phase, input) {
            (VoicePhase::Preparing, VoiceInput::OfferMade) => run.unless_stopped(
                VoicePhase::Gathering,
                VoiceActionView::WaitForCandidates,
            ),
            (VoicePhase::Preparing, VoiceInput::OfferFailed) => run.ending(
                Some(VoiceError::OfferFailed),
            ),
            (VoicePhase::Gathering, VoiceInput::StopRequested) => run.ending(None),
            (VoicePhase::Gathering, VoiceInput::Gathered) => run.unless_stopped(
                VoicePhase::Describing,
                VoiceActionView::ReadDescription,
            ),
            (VoicePhase::Gathering, VoiceInput::GatherTimedOut) => run.ending(
                Some(VoiceError::GatherTimedOut),
            ),
            (VoicePhase::Gathering, VoiceInput::GatherStopped) => run.ending(
                Some(VoiceError::GatherStopped),
            ),
            (VoicePhase::Describing, VoiceInput::Described) => run.to(
                VoicePhase::Signaling,
                VoiceActionView::CreateSession,
            ),
            (VoicePhase::Describing, VoiceInput::NotDescribed) => run.ending(
                Some(VoiceError::NoLocalDescription),
            ),
            (VoicePhase::Signaling, VoiceInput::SessionCreated { session_id }) => (VoiceRunView {
                session: Some(session_id@),
                ..run
            }).unless_stopped(VoicePhase::Applying, VoiceActionView::ApplyAnswer),
            (VoicePhase::Signaling, VoiceInput::SessionRefused(e)) => run.ending(
                Some(VoiceError::Signaling(e)),
            ),
            (VoicePhase::Applying, VoiceInput::AnswerApplied) => run.unless_stopped(
                VoicePhase::Connecting,
                VoiceActionView::WaitForConnection,
            ),
            (VoicePhase::Applying, VoiceInput::AnswerRefused) => run.ending(
                Some(VoiceError::AnswerNotApplied),
            ),
            (VoicePhase::Connecting, VoiceInput::StopRequested) => run.ending(None),
            (VoicePhase::Connecting, VoiceInput::Peer(PeerState::Connected)) => run.unless_stopped(
                VoicePhase::StartingAudio,
                VoiceActionView::StartAudio,
            ),
            (VoicePhase::Connecting, VoiceInput::Peer(PeerState::Other)) => run.waiting(),
            (VoicePhase::Connecting, VoiceInput::Peer(_)) => run.ending(
                Some(VoiceError::ConnectionFailed),
            ),
            (VoicePhase::Connecting, VoiceInput::ConnectTimedOut) => run.ending(
                Some(VoiceError::ConnectionTimedOut),
            ),
            (VoicePhase::StartingAudio, VoiceInput::AudioStarted) => run.unless_stopped(
                VoicePhase::Streaming,
                VoiceActionView::Stream,
            ),
            (VoicePhase::StartingAudio, VoiceInput::AudioFailed(e)) => run.ending(Some(e)),
            (VoicePhase::Streaming, VoiceInput::StopRequested) => run.ending(None),
            (VoicePhase::Streaming, VoiceInput::Peer(PeerState::Failed))
            | (VoicePhase::Streaming, VoiceInput::Peer(PeerState::Closed))
            | (VoicePhase::Streaming, VoiceInput::Peer(PeerState::Gone)) => run.ending(
                Some(VoiceError::ConnectionClosed),
            ),
            (VoicePhase::Streaming, VoiceInput::MicrophoneStopped) => run.ending(
                Some(VoiceError::MicrophoneStopped),
            ),
            (VoicePhase::Streaming, VoiceInput::SendFailed) => run.ending(
                Some(VoiceError::SendFailed),
            ),
            (VoicePhase::ClosingPeer, VoiceInput::PeerClosed) => match run.session {
                Some(session_id) => run.to(
                    VoicePhase::DeletingSession,
                    VoiceActionView::DeleteSession { session_id },
                ),
                None => run.to(VoicePhase::Done, VoiceActionView::Finish(run.failure)),
            },
            (VoicePhase::DeletingSession, VoiceInput::SessionDeleted) => run.to(
                VoicePhase::Done,
                VoiceActionView::Finish(run.failure),
            ),
            _ => run.waiting(),
        }
    }
}

impl VoiceRun {
    /// Begin, unless a stop was requested before the peer was ready.
    pub fn start(stop: bool) -> (r: (Self, VoiceAction))
        ensures
            (r.0@, r.1@) == (VoiceRunView {
                phase: VoicePhase::Preparing,
                stop,
                session: None,
                failure: None,
            }).unless_stopped(VoicePhase::Preparing, VoiceActionView::MakeOffer),
    {
        let mut run = VoiceRun {
            phase: VoicePhase::Preparing,
            stop,
            session: None,
            failure: None,
        };
        let action: VoiceAction = run.unless_stopped(VoicePhase::Preparing, VoiceAction::MakeOffer);
        (run, action)
    }

    fn to(&mut self, phase: VoicePhase, action: VoiceAction) -> (r: VoiceAction)
        ensures
            (final(self)@, r@) == old(self)@.to(phase, action@),
    {
        self.phase = phase;
        action
    }

    fn ending(&mut self, failure: Option<VoiceError>) -> (r: VoiceAction)
        ensures
            (final(self)@, r@) == old(self)@.ending(failure),
    {
        self.phase = VoicePhase::ClosingPeer;
        self.failure = failure;
        VoiceAction::ClosePeer
    }

    fn unless_stopped(&mut self, phase: VoicePhase, action: VoiceAction) -> (r: VoiceAction)
        ensures
            (final(self)@, r@) == old(self)@.unless_stopped(phase, action@),
    {
        if self.stop {
            self.ending(None)
        } else {
            self.to(phase, action)
        }
    }

    /// Take an input.
    pub fn step(&mut self, input: VoiceInput) -> (r: VoiceAction)
        ensures
            (final(self)@, r@) == old(self)@.after(input),
    {
        if let VoiceInput::StopRequested = &input {
            self.stop = true;
        }
        match (self.phase, input) {
            (VoicePhase::Preparing, VoiceInput::OfferMade) => self.unless_stopped(
                VoicePhase::Gathering,
                VoiceAction::WaitForCandidates,
            ),
            (VoicePhase::Preparing, VoiceInput::OfferFailed) => self.ending(
                Some(VoiceError::OfferFailed),
            ),
            (VoicePhase::Gathering, VoiceInput::StopRequested) => self.ending(None),
            (VoicePhase::Gathering, VoiceInput::Gathered) => self.unless_stopped(
                VoicePhase::Describing,
                VoiceAction::ReadDescription,
            ),
            (VoicePhase::Gathering, VoiceInput::GatherTimedOut) => self.ending(
                Some(VoiceError::GatherTimedOut),
            ),
            (VoicePhase::Gathering, VoiceInput::GatherStopped) => self.ending(
                Some(VoiceError::GatherStopped),
            ),
            (VoicePhase::Describing, VoiceInput::Described) => self.to(
                VoicePhase::Signaling,
                VoiceAction::CreateSession,
            ),
            (VoicePhase::Describing, VoiceInput::NotDescribed) => self.ending(
                Some(VoiceError::NoLocalDescription),
            ),
            (VoicePhase::Signaling, VoiceInput::SessionCreated { session_id }) => {
                self.session = Some(session_id);
                self.unless_stopped(VoicePhase::Applying, VoiceAction::ApplyAnswer)
            },
            (VoicePhase::Signaling, VoiceInput::SessionRefused(e)) => self.ending(
                Some(VoiceError::Signaling(e)),
            ),
            (VoicePhase::Applying, VoiceInput::AnswerApplied) => self.unless_stopped(
                VoicePhase::Connecting,
                VoiceAction::WaitForConnection,
            ),
            (VoicePhase::Applying, VoiceInput::AnswerRefused) => self.ending(
                Some(VoiceError::AnswerNotApplied),
            ),
            (VoicePhase::Connecting, VoiceInput::StopRequested) => self.ending(None),
            (VoicePhase::Connecting, VoiceInput::Peer(PeerState::Connected)) => self.unless_stopped(
                VoicePhase::StartingAudio,
                VoiceAction::StartAudio,
            ),
            (VoicePhase::Connecting, VoiceInput::Peer(PeerState::Other)) => VoiceAction::Wait,
            (VoicePhase::Connecting, VoiceInput::Peer(_)) => self.ending(
                Some(VoiceError::ConnectionFailed),
            ),
            (VoicePhase::Connecting, VoiceInput::ConnectTimedOut) => self.ending(
                Some(VoiceError::ConnectionTimedOut),
            ),
            (VoicePhase::StartingAudio, VoiceInput::AudioStarted) => self.unless_stopped(
                VoicePhase::Streaming,
                VoiceAction::Stream,
            ),
            (VoicePhase::StartingAudio, VoiceInput::AudioFailed(e)) => self.ending(Some(e)),
            (VoicePhase::Streaming, VoiceInput::StopRequested) => self.ending(None),
            (VoicePhase::Streaming, VoiceInput::Peer(PeerState::Failed))
            | (VoicePhase::Streaming, VoiceInput::Peer(PeerState::Closed))
            | (VoicePhase::Streaming, VoiceInput::Peer(PeerState::Gone)) => self.ending(
                Some(VoiceError::ConnectionClosed),
            ),
            (VoicePhase::Streaming, VoiceInput::MicrophoneStopped) => self.ending(
                Some(VoiceError::MicrophoneStopped),
            ),
            (VoicePhase::Streaming, VoiceInput::SendFailed) => self.ending(
                Some(VoiceError::SendFailed),
            ),
            (VoicePhase::ClosingPeer, VoiceInput::PeerClosed) => {
                let session: Option<String> = match &self.session {
                    Some(id) => Some(id.clone()),
                    None => None,
                };
                match session {
                    Some(session_id) => self.to(
                        VoicePhase::DeletingSession,
                        VoiceAction::DeleteSession { session_id },
                    ),
                    None => {
                        let failure: Option<VoiceError> = self.failure;
                        self.to(VoicePhase::Done, VoiceAction::Finish(failure))
                    },
                }
            },
            (VoicePhase::DeletingSession, VoiceInput::SessionDeleted) => {
                let failure: Option<VoiceError> = self.failure;
                self.to(VoicePhase::Done, VoiceAction::Finish(failure))
            },
            _ => VoiceAction::Wait,
        }
    }
}

/// The session after some inputs.
pub open spec fn voice_after(run: VoiceRunView, inputs: Seq<VoiceInput>) -> VoiceRunView
    decreases inputs.len(),
{
    if inputs.len() == 0 {
        run
    } else {
        voice_after(run, inputs.drop_last()).after(inputs.last()).0
    }
}

/// The actions that some inputs led to, in order.
pub open spec fn voice_actions(run: VoiceRunView, inputs: Seq<VoiceInput>) -> Seq<VoiceActionView>
    decreases inputs.len(),
{
    if inputs.len() == 0 {
        Seq::empty()
    } else {
        voice_actions(run, inputs.drop_last()).push(
            voice_after(run, inputs.drop_last()).after(inputs.last()).1,
        )
    }
}

/// A run as it starts.
pub open spec fn fresh_run(stop: bool) -> VoiceRunView {
    (VoiceRunView { phase: VoicePhase::Preparing, stop, session: None, failure: None }
        ).unless_stopped(VoicePhase::Preparing, VoiceActionView::MakeOffer).0
}

/// No session is stranded: whatever happens, a run that is over has asked the
/// server to delete the session that it was given.
pub proof fn named_sessions_are_deleted(stop: bool, inputs: Seq<VoiceInput>)
    ensures
        ({
            let run = voice_after(fresh_run(stop), inputs);
            let actions = voice_actions(fresh_run(stop), inputs);
            (run.phase is Done || run.phase is DeletingSession) ==> match run.session {
                Some(session_id) => actions.contains(VoiceActionView::DeleteSession { session_id }),
                None => true,
            }
        }),
        voice_after(fresh_run(stop), inputs).session is Some ==> !(voice_after(
            fresh_run(stop),
            inputs,
        ).phase is Preparing) && !(voice_after(fresh_run(stop), inputs).phase is Gathering)
            && !(voice_after(fresh_run(stop), inputs).phase is Describing) && !(voice_after(
            fresh_run(stop),
            inputs,
        ).phase is Signaling),
    decreases inputs.len(),
{
    if inputs.len() > 0 {
        let rest = inputs.drop_last();
        named_sessions_are_deleted(stop, rest);
        let before = voice_after(fresh_run(stop), rest);
        let earlier = voice_actions(fresh_run(stop), rest);
        let run = voice_after(fresh_run(stop), inputs);
        let actions = voice_actions(fresh_run(stop), inputs);
        if let Some(session_id) = run.session {
            let wanted = VoiceActionView::DeleteSession { session_id };
            if run.phase is Done || run.phase is DeletingSession {
                if before.phase is Done || before.phase is DeletingSession {
                    assert(earlier.contains(wanted));
                    let k = choose|k: int| 0 <= k < earlier.len() && earlier[k] == wanted;
                    assert(actions[k] == wanted);
                } else {
                    assert(actions.last() == wanted);
                }
            }
        }
    }
}

/// A stop does not cancel the request for a session: until the server has
/// answered, nobody could name the session to delete.
pub proof fn stops_wait_for_signaling(run: VoiceRunView)
    requires
        run.phase is Signaling,
    ensures
        run.after(VoiceInput::StopRequested) == (
            VoiceRunView { stop: true, ..run },
            VoiceActionView::Wait,
        ),
{
}

/// Once a stop was requested, the next step that would go on ends the run
/// instead: after the offer, the candidates, the session, the answer, the
/// connection and the microphone, the peer is closed. A run that waits hears
/// the stop at once.
pub proof fn stopped_runs_end(run: VoiceRunView, session_id: String)
    requires
        run.stop,
    ensures
        run.phase is Preparing ==> run.after(VoiceInput::OfferMade) == run.ending(None),
        run.phase is Gathering ==> run.after(VoiceInput::Gathered) == run.ending(None),
        run.phase is Signaling ==> run.after(VoiceInput::SessionCreated { session_id })
            == (VoiceRunView { session: Some(session_id@), ..run }).ending(None),
        run.phase is Applying ==> run.after(VoiceInput::AnswerApplied) == run.ending(None),
        run.phase is Connecting ==> run.after(VoiceInput::Peer(PeerState::Connected))
            == run.ending(None),
        run.phase is StartingAudio ==> run.after(VoiceInput::AudioStarted) == run.ending(None),
        run.phase is Gathering || run.phase is Connecting || run.phase is Streaming ==> run.after(
            VoiceInput::StopRequested,
        ) == run.ending(None),
        fresh_run(true).phase is ClosingPeer,
{
}

/// A stop is never overtaken: whatever happens before and after it, a run
/// whose stop was requested neither waits for candidates or a connection nor
/// streams, and no step after the stop begins to.
pub proof fn stopped_runs_never_stream(stop: bool, inputs: Seq<VoiceInput>)
    ensures
        ({
            let run = voice_after(fresh_run(stop), inputs);
            let actions = voice_actions(fresh_run(stop), inputs);
            run.stop ==> {
                &&& !(run.phase is Gathering)
                &&& !(run.phase is Connecting)
                &&& !(run.phase is Streaming)
                &&& inputs.len() > 0 ==> !(actions.last() is WaitForCandidates) && !(actions.last()
                    is WaitForConnection) && !(actions.last() is StartAudio) && !(actions.last()
                    is Stream)
            }
        }),
        stop || inputs.contains(VoiceInput::StopRequested) ==> voice_after(
            fresh_run(stop),
            inputs,
        ).stop,
    decreases inputs.len(),
{
    if inputs.len() > 0 {
        let rest = inputs.drop_last();
        stopped_runs_never_stream(stop, rest);
        if inputs.contains(VoiceInput::StopRequested) && !(inputs.last() is StopRequested) {
            let k = choose|k: int|
                0 <= k < inputs.len() && inputs[k] == VoiceInput::StopRequested;
            assert(rest[k] == VoiceInput::StopRequested);
        }
    }
}

/// An undisturbed run goes through its steps in order: it makes an offer, waits
/// for candidates, reads the description, asks for a session, applies the
/// answer, waits for the connection, opens the microphone and streams, with
/// the session it was given.
pub proof fn undisturbed_runs_stream(id: String)
    ensures
        ({
            let preparing = fresh_run(false);
            let (gathering, a) = preparing.after(VoiceInput::OfferMade);
            let (describing, b) = gathering.after(VoiceInput::Gathered);
            let (signaling, c) = describing.after(VoiceInput::Described);
            let (applying, d) = signaling.after(VoiceInput::SessionCreated { session_id: id });
            let (connecting, e) = applying.after(VoiceInput::AnswerApplied);
            let (starting, f) = connecting.after(VoiceInput::Peer(PeerState::Connected));
            let (streaming, g) = starting.after(VoiceInput::AudioStarted);
            &&& preparing.phase is Preparing && !preparing.stop
            &&& preparing.session is None && preparing.failure is None
            &&& a is WaitForCandidates
            &&& b is ReadDescription
            &&& c is CreateSession
            &&& d is ApplyAnswer
            &&& e is WaitForConnection
            &&& f is StartAudio
            &&& g is Stream
            &&& applying.session == Some(id@)
            &&& streaming.phase is Streaming
            &&& streaming.session == Some(id@)
            &&& streaming.failure is None
            &&& !streaming.stop
        }),
{
}

/// A stream goes on through whatever the connection reports short of its end,
/// and ends when it is asked to, without a failure.
pub proof fn streams_go_on_until_stopped(run: VoiceRunView)
    requires
        run.phase is Streaming,
    ensures
        run.after(VoiceInput::Peer(PeerState::Connected)) == (run, VoiceActionView::Wait),
        run.after(VoiceInput::Peer(PeerState::Other)) == (run, VoiceActionView::Wait),
        ({
            let (ended, action) = run.after(VoiceInput::StopRequested);
            &&& action is ClosePeer
            &&& ended.phase is ClosingPeer
            &&& ended.failure is None
            &&& ended.session == run.session
            &&& ended.stop
        }),
{
}

/// Whatever fails ends the run with the failure it is, at the step where it
/// happens, and closes the peer: the session stays known so that it can be
/// deleted.
pub proof fn failures_end_the_run(run: VoiceRunView, e: SignalingError, audio: VoiceError)
    ensures
        ({
            let ends = |input: VoiceInput, failure: VoiceError|
                {
                    let (ended, action) = run.after(input);
                    &&& action is ClosePeer
                    &&& ended.phase is ClosingPeer
                    &&& ended.failure == Some(failure)
                    &&& ended.session == run.session
                };
            &&& run.phase is Preparing ==> ends(VoiceInput::OfferFailed, VoiceError::OfferFailed)
            &&& run.phase is Gathering ==> ends(
                VoiceInput::GatherTimedOut,
                VoiceError::GatherTimedOut,
            ) && ends(VoiceInput::GatherStopped, VoiceError::GatherStopped)
            &&& run.phase is Describing ==> ends(
                VoiceInput::NotDescribed,
                VoiceError::NoLocalDescription,
            )
            &&& run.phase is Signaling ==> ends(
                VoiceInput::SessionRefused(e),
                VoiceError::Signaling(e),
            )
            &&& run.phase is Applying ==> ends(
                VoiceInput::AnswerRefused,
                VoiceError::AnswerNotApplied,
            )
            &&& run.phase is Connecting ==> {
                &&& ends(VoiceInput::Peer(PeerState::Failed), VoiceError::ConnectionFailed)
                &&& ends(VoiceInput::Peer(PeerState::Closed), VoiceError::ConnectionFailed)
                &&& ends(VoiceInput::Peer(PeerState::Gone), VoiceError::ConnectionFailed)
                &&& ends(VoiceInput::ConnectTimedOut, VoiceError::ConnectionTimedOut)
                &&& run.after(VoiceInput::Peer(PeerState::Other)).1 is Wait
            }
            &&& run.phase is StartingAudio ==> ends(VoiceInput::AudioFailed(audio), audio)
            &&& run.phase is Streaming ==> {
                &&& ends(VoiceInput::Peer(PeerState::Failed), VoiceError::ConnectionClosed)
                &&& ends(VoiceInput::Peer(PeerState::Closed), VoiceError::ConnectionClosed)
                &&& ends(VoiceInput::Peer(PeerState::Gone), VoiceError::ConnectionClosed)
                &&& ends(VoiceInput::MicrophoneStopped, VoiceError::MicrophoneStopped)
                &&& ends(VoiceInput::SendFailed, VoiceError::SendFailed)
            }
        }),
{
}

/// A run that ends deletes its session once the peer is closed, and then tells
/// how it ended; a run without a session tells at once.
pub proof fn ended_runs_tell_how(run: VoiceRunView)
    requires
        run.phase is ClosingPeer,
    ensures
        ({
            let (closed, action) = run.after(VoiceInput::PeerClosed);
            let (deleted, last) = closed.after(VoiceInput::SessionDeleted);
            &&& run.session is None ==> closed.phase is Done && action
                == VoiceActionView::Finish(run.failure)
            &&& run.session matches Some(session_id) ==> {
                &&& closed.phase is DeletingSession
                &&& action == VoiceActionView::DeleteSession { session_id }
                &&& deleted.phase is Done
                &&& last == VoiceActionView::Finish(run.failure)
            }
        }),
{
}

/// A run that is over stays over, and a stop that comes while it ends only
/// notes itself.
pub proof fn finished_runs_stay_finished(run: VoiceRunView, input: VoiceInput)
    ensures
        run.phase is Done ==> run.after(input).0.phase is Done && run.after(input).1 is Wait,
        run.phase is ClosingPeer && !(input is PeerClosed) ==> run.after(input).0.phase
            is ClosingPeer && run.after(input).1 is Wait,
        run.phase is DeletingSession && !(input is SessionDeleted) ==> run.after(input).0.phase
            is DeletingSession && run.after(input).1 is Wait,
        run.after(input).0.stop == (run.stop || input is StopRequested),
        !(input is SessionCreated) ==> run.after(input).0.session == run.session,
{
}

/// A session identifier has 36 characters, hyphens in four places and
/// hexadecimal digits everywhere else, and so needs no escaping in a route.
pub proof fn session_ids_are_uuids(id: Seq<char>, i: int)
    requires
        session_id(id),
        0 <= i < id.len(),
    ensures
        id.len() == 36,
        i == 8 || i == 13 || i == 18 || i == 23 <==> id[i] == '-',
        id[i] == '-' || '0' <= id[i] <= '9' || 'a' <= id[i] <= 'f' || 'A' <= id[i] <= 'F',
{
    assert(if hyphen_at(i) {
        id[i] == '-'
    } else {
        hex_digit(id[i])
    });
}

/// Any text of that shape is one.
pub proof fn uuids_are_session_ids(id: Seq<char>)
    requires
        id.len() == 36,
        forall|i: int|
            0 <= i < 36 ==> if i == 8 || i == 13 || i == 18 || i == 23 {
                #[trigger] id[i] == '-'
            } else {
                '0' <= id[i] <= '9' || 'a' <= id[i] <= 'f' || 'A' <= id[i] <= 'F'
            },
    ensures
        session_id(id),
{
}

/// A session is there exactly when it was created under a proper name; that
/// another one is active, any other status, no answer and a wrong name are
/// told apart.
pub proof fn sessions_are_created_or_refused(status: u16, answer: Option<SessionAnswer>)
    ensures
        ({
            let problem = signaling_problem(status, answer);
            &&& problem is None <==> status == 201 && (answer matches Some(a) && session_id(
                a.session_id@,
            ))
            &&& status == 409 <==> problem == Some(SignalingError::AlreadyActive)
            &&& status != 201 && status != 409 <==> problem == Some(
                SignalingError::HttpStatus(status),
            )
            &&& status == 201 && answer is None <==> problem == Some(SignalingError::InvalidAnswer)
            &&& problem == Some(SignalingError::InvalidSessionId) <==> status == 201 && (
            answer matches Some(a) && !session_id(a.session_id@))
        }),
{
}

/// Two bytes spell a sample in two's complement, the low one first.
pub proof fn bytes_spell_samples(low: u8, high: u8, chunk: Seq<u8>, i: int)
    ensures
        high < 128 ==> sample_of(low, high) == low + 256 * high,
        high >= 128 ==> sample_of(low, high) == low + 256 * high - 65536,
        samples_in(chunk).len() == chunk.len() / 2,
        0 <= i < chunk.len() / 2 ==> samples_in(chunk)[i] == sample_of(
            chunk[2 * i],
            chunk[2 * i + 1],
        ),
        FRAME_SAMPLES * 50 == AUDIO_RATE,
{
}

} // verus!
