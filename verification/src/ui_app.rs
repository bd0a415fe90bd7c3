//! The application's state machine: what every event does to a dictation, a
//! text action or a voice session, and what has to be done about it.
//!
//! Handlers change the state and return actions. The program around the
//! library carries the actions out and hands results that they produce back
//! in. Times are nanoseconds of one monotonic clock.

use vstd::prelude::*;

use crate::composition::{
    AssembleError, AtomView, CompositionSession, EntryView, FinalComposition, FinalView, Heard,
    MAX_SESSION_PCM_BYTES, SessionView, SilenceCompactor, actual_text, append_bytes, assembled,
    long_gap, preview_of, speech_entries, typed_atoms,
};
use crate::config::{
    AppConfig, ConfigError, ConfigView, Feature, dictation_problem, feature_problem, paste_problem,
    summary_of, truth,
};
use crate::pill_renderer::{PillState, TopBarAlignment, TopBarContent};
use crate::stt::{Transcript, TranscriptView};
use crate::text::{
    chars_of, control, decimal, decimals_read_back, digits_value, extend, is_blank, same_text,
    string_of, to_decimal, trimmed,
};
use crate::voice::VoiceEvent;
use crate::win32_service::{CommandView, Win32Command, Win32Event};

verus! {

/// How much of the typing buffer the bar shows.
pub const TYPING_PREVIEW_CHARACTERS: usize = 256;

pub const LINE_BREAK_SYMBOL: &'static str = "\u{21b5}";

/// How long the bar shows a line break while listening: 1.5 seconds.
pub const LINE_BREAK_FEEDBACK_NS: u64 = 1_500_000_000;

#[derive(Clone, Copy, Debug, PartialEq, Eq, Structural)]
pub enum DictationState {
    Idle,
    Starting,
    Listening,
    Typing,
    Transcribing,
    Inserting,
    FixingGrammar,
    AnsweringQuestion,
}

impl DictationState {
    /// The microphone belongs to the session.
    pub open spec fn hearing(self) -> bool {
        self is Starting || self is Listening
    }

    /// The session still takes input.
    pub open spec fn composing(self) -> bool {
        self.hearing() || self is Typing
    }

    /// A request to the language model is out.
    pub open spec fn asking(self) -> bool {
        self is FixingGrammar || self is AnsweringQuestion
    }

    pub fn is_hearing(self) -> (r: bool)
        ensures
            r == self.hearing(),
    {
        match self {
            DictationState::Starting | DictationState::Listening => true,
            _ => false,
        }
    }

    pub fn is_composing(self) -> (r: bool)
        ensures
            r == self.composing(),
    {
        match self {
            DictationState::Starting | DictationState::Listening | DictationState::Typing => true,
            _ => false,
        }
    }

    pub fn is_asking(self) -> (r: bool)
        ensures
            r == self.asking(),
    {
        match self {
            DictationState::FixingGrammar | DictationState::AnsweringQuestion => true,
            _ => false,
        }
    }
}

#[derive(Clone, Copy, Debug, PartialEq, Eq, Structural)]
pub enum TextActionKind {
    FixGrammar,
    AnswerQuestion,
}

/// A text action in flight.
#[derive(Clone, Copy, Debug, PartialEq, Eq, Structural)]
pub struct TextAction {
    pub kind: TextActionKind,
    pub target_hwnd: isize,
}

/// Why a capture starts: a session begins, or typing in it has ended.
#[derive(Clone, Copy, Debug, PartialEq, Eq, Structural)]
pub enum CapturePurpose {
    Start,
    Resume,
}

/// What the program has to do, in order.
pub enum UiAction {
    /// Hand a command to the window service.
    Send(Win32Command),
    /// Hand the overlay's content to the window service.
    SyncOverlay,
    /// Put the overlay at a point, without a glide.
    PlaceOverlay { x: i32, y: i32 },
    /// Let the overlay glide to a point.
    AimOverlay { x: i32, y: i32 },
    /// End the overlay's glide where it is.
    RestOverlay,
    /// Start the microphone and report to `audio_started`.
    StartAudio(CapturePurpose),
    /// Stop the microphone, if that has not happened yet. What it recorded
    /// has gone through `process_audio_chunk` before: see `ends_capture`.
    StopAudio,
    /// Begin a spectrum for a sample rate.
    NewSpectrum(u32),
    ResetSpectrum,
    /// Transcribe each segment, `compose` the session with the transcripts and
    /// report to `finish_transcription`.
    Transcribe { session: CompositionSession, segments: Vec<Vec<u8>> },
    /// Read the clipboard's text and report to `paste_text`.
    ReadClipboardText,
    /// Read the clipboard's image and report to `image_captured`.
    ReadClipboardImage { target_hwnd: isize },
    /// Upload the image that was read and report to `finish_image_upload`.
    UploadImage { target_hwnd: isize },
    /// Read the selected text and report to `selection_captured`.
    ReadSelection { kind: TextActionKind, target_hwnd: isize, x: i32, y: i32 },
    /// Ask the language model and report to `finish_text_action`.
    RunTextAction { kind: TextActionKind, text: String },
    /// Start a voice session and report to `voice_started`.
    StartVoice,
    StopVoice,
    /// Wait for the end of the voice session.
    FinishVoice,
    /// Load the configuration and report to `config_reloaded`.
    LoadConfig,
    /// Track activity under the configuration of now.
    RestartActivity,
    ToggleActivity,
    ShutdownActivity,
    OpenLog,
    CopyLogPath,
    OpenArtifacts,
    OpenJournal,
    ShowAbout,
    CloseWindow,
}

/// What a `UiAction` says.
pub enum ActionView {
    Send(CommandView),
    SyncOverlay,
    PlaceOverlay { x: i32, y: i32 },
    AimOverlay { x: i32, y: i32 },
    RestOverlay,
    StartAudio(CapturePurpose),
    StopAudio,
    NewSpectrum(u32),
    ResetSpectrum,
    Transcribe { session: SessionView, segments: Seq<Seq<u8>> },
    ReadClipboardText,
    ReadClipboardImage { target_hwnd: isize },
    UploadImage { target_hwnd: isize },
    ReadSelection { kind: TextActionKind, target_hwnd: isize, x: i32, y: i32 },
    RunTextAction { kind: TextActionKind, text: Seq<char> },
    StartVoice,
    StopVoice,
    FinishVoice,
    LoadConfig,
    RestartActivity,
    ToggleActivity,
    ShutdownActivity,
    OpenLog,
    CopyLogPath,
    OpenArtifacts,
    OpenJournal,
    ShowAbout,
    CloseWindow,
}

pub open spec fn byte_views(segments: Seq<Vec<u8>>) -> Seq<Seq<u8>> {
    segments.map_values(|s: Vec<u8>| s@)
}

impl View for UiAction {
    type V = ActionView;

    open spec fn view(&self) -> ActionView {
        match *self {
            UiAction::Send(command) => ActionView::Send(command@),
            UiAction::SyncOverlay => ActionView::SyncOverlay,
            UiAction::PlaceOverlay { x, y } => ActionView::PlaceOverlay { x, y },
            UiAction::AimOverlay { x, y } => ActionView::AimOverlay { x, y },
            UiAction::RestOverlay => ActionView::RestOverlay,
            UiAction::StartAudio(purpose) => ActionView::StartAudio(purpose),
            UiAction::StopAudio => ActionView::StopAudio,
            UiAction::NewSpectrum(rate) => ActionView::NewSpectrum(rate),
            UiAction::ResetSpectrum => ActionView::ResetSpectrum,
            UiAction::Transcribe { session, segments } => ActionView::Transcribe {
                session: session@,
                segments: byte_views(segments@),
            },
            UiAction::ReadClipboardText => ActionView::ReadClipboardText,
            UiAction::ReadClipboardImage { target_hwnd } => ActionView::ReadClipboardImage {
                target_hwnd,
            },
            UiAction::UploadImage { target_hwnd } => ActionView::UploadImage { target_hwnd },
            UiAction::ReadSelection { kind, target_hwnd, x, y } => ActionView::ReadSelection {
                kind,
                target_hwnd,
                x,
                y,
            },
            UiAction::RunTextAction { kind, text } => ActionView::RunTextAction {
                kind,
                text: text@,
            },
            UiAction::StartVoice => ActionView::StartVoice,
            UiAction::StopVoice => ActionView::StopVoice,
            UiAction::FinishVoice => ActionView::FinishVoice,
            UiAction::LoadConfig => ActionView::LoadConfig,
            UiAction::RestartActivity => ActionView::RestartActivity,
            UiAction::ToggleActivity => ActionView::ToggleActivity,
            UiAction::ShutdownActivity => ActionView::ShutdownActivity,
            UiAction::OpenLog => ActionView::OpenLog,
            UiAction::CopyLogPath => ActionView::CopyLogPath,
            UiAction::OpenArtifacts => ActionView::OpenArtifacts,
            UiAction::OpenJournal => ActionView::OpenJournal,
            UiAction::ShowAbout => ActionView::ShowAbout,
            UiAction::CloseWindow => ActionView::CloseWindow,
        }
    }
}

pub open spec fn action_views(actions: Seq<UiAction>) -> Seq<ActionView> {
    actions.map_values(|a: UiAction| a@)
}

/// What a `UiApp` holds.
pub struct UiView {
    pub config: ConfigView,
    pub state: DictationState,
    /// The sample rate of the running capture.
    pub capture: Option<u32>,
    /// What the current segment has heard.
    pub heard: Option<Heard>,
    pub session: Option<SessionView>,
    /// The audio of each sealed segment of the session.
    pub segments: Seq<Seq<u8>>,
    pub bar_active: bool,
    pub insertion_count: nat,
    /// Recording time before the running capture, and its start.
    pub elapsed: u64,
    pub started_at: Option<u64>,
    /// Until when the bar shows a line break.
    pub feedback_until: Option<u64>,
    pub text_action: Option<TextAction>,
    pub visible: bool,
    /// The last operation failed.
    pub failed: bool,
    pub paste_in_flight: bool,
    pub voice: bool,
    pub voice_stopping: bool,
    /// What the service last heard of activity tracking.
    pub activity_key: Seq<char>,
}

/// A state and what has to be done on the way to it.
pub type UiStep = (UiView, Seq<ActionView>);

/// `step` behind other actions.
pub open spec fn behind(actions: Seq<ActionView>, step: UiStep) -> UiStep {
    (step.0, actions + step.1)
}

pub open spec fn tooltip(text: Seq<char>) -> ActionView {
    ActionView::Send(CommandView::SetTooltip(text))
}

pub open spec fn message_box(text: Seq<char>) -> ActionView {
    ActionView::Send(CommandView::ShowMessageBox { title: "Ashe Worker"@, text })
}

pub open spec fn keyboard_capture(on: bool) -> ActionView {
    ActionView::Send(CommandView::SetKeyboardCapture(on))
}

/// `now - since`, or nothing for a clock that went back.
pub open spec fn time_since(since: u64, now: u64) -> int {
    if now >= since {
        now - since
    } else {
        0
    }
}

/// `a + b`, or the largest time.
pub open spec fn later(a: u64, b: int) -> u64 {
    if a + b <= u64::MAX {
        (a + b) as u64
    } else {
        u64::MAX
    }
}

/// The insertions of a session.
pub open spec fn insertions(s: SessionView) -> nat {
    (s.entries.len() - speech_entries(s.entries)) as nat
}

/// A session whose typing has become an insertion.
pub open spec fn committed(s: SessionView) -> SessionView {
    if s.typing.len() == 0 {
        s
    } else {
        SessionView {
            entries: s.entries.push(EntryView::Insertion(actual_text(s.typing))),
            typing: Seq::empty(),
            ..s
        }
    }
}

impl UiView {
    /// The recording time on the bar.
    pub open spec fn recorded(self, now: u64) -> u64 {
        match self.started_at {
            Some(since) => later(self.elapsed, time_since(since, now)),
            None => self.elapsed,
        }
    }

    pub open spec fn timer_stopped(self, now: u64) -> UiView {
        UiView { elapsed: self.recorded(now), started_at: None, ..self }
    }

    pub open spec fn bar_cleared(self) -> UiView {
        UiView {
            bar_active: false,
            insertion_count: 0,
            elapsed: 0,
            started_at: None,
            feedback_until: None,
            ..self
        }
    }

    /// The session or text action is over and the overlay goes.
    pub open spec fn hidden(self) -> UiStep {
        (
            UiView {
                session: None,
                segments: Seq::empty(),
                heard: None,
                text_action: None,
                state: DictationState::Idle,
                visible: false,
                ..self.bar_cleared()
            },
            seq![
                ActionView::RestOverlay,
                keyboard_capture(false),
                ActionView::Send(CommandView::SetActive(false)),
                ActionView::Send(CommandView::SetFollowCursor(false)),
                ActionView::SyncOverlay,
            ],
        )
    }

    /// Over without a text.
    pub open spec fn without_transcript(self) -> UiStep {
        behind(seq![tooltip("Ashe Worker - Idle - Win+Shift+H"@)], self.hidden())
    }

    /// The microphone stops, where it runs.
    pub open spec fn capture_stopped(self) -> UiStep {
        (
            UiView { capture: None, ..self },
            if self.capture is Some {
                seq![ActionView::StopAudio]
            } else {
                Seq::empty()
            },
        )
    }

    /// The current segment joins the session, if it holds speech.
    pub open spec fn segment_committed(self) -> UiView {
        let rest = UiView { heard: None, ..self };
        match (self.heard, self.session) {
            (Some(heard), Some(session)) => if heard.has_speech && heard.audio().len() > 0
                && session.rate > 0 {
                UiView {
                    session: Some(
                        SessionView {
                            audio: session.audio + heard.audio(),
                            entries: session.entries.push(EntryView::Speech),
                            transcripts: session.transcripts.push(None),
                            ..session
                        },
                    ),
                    segments: self.segments.push(heard.audio()),
                    ..rest
                }
            } else {
                rest
            },
            _ => rest,
        }
    }

    /// The microphone stops and its audio joins the session.
    pub open spec fn sealed(self, now: u64) -> UiStep {
        let (view, actions) = self.timer_stopped(now).capture_stopped();
        (view.segment_committed(), actions.push(ActionView::ResetSpectrum))
    }

    /// The current segment ends and another begins.
    pub open spec fn split(self) -> UiView {
        let rate = match self.capture {
            Some(rate) => rate as nat,
            None => self.config.output_sample_rate,
        };
        UiView { heard: Some(Heard::start(rate)), ..self.segment_committed() }
    }

    /// Insert a text where the session began.
    pub open spec fn inserting(self, target_hwnd: isize, text: Seq<char>) -> UiStep {
        if text.len() == 0 {
            self.without_transcript()
        } else {
            (
                UiView { state: DictationState::Inserting, ..self },
                seq![ActionView::Send(CommandView::PasteText { target_hwnd, text })],
            )
        }
    }

    /// The session takes no more input: what was typed is committed, and the
    /// text is inserted or waits for its transcripts.
    pub open spec fn stopped(self, now: u64) -> UiStep {
        if !self.state.composing() {
            (self, Seq::empty())
        } else {
            let (view, actions) = self.sealed(now);
            let actions = actions.push(keyboard_capture(false));
            match view.session {
                None => behind(actions, view.without_transcript()),
                Some(open) => {
                    let session = if self.state is Typing {
                        committed(open)
                    } else {
                        open
                    };
                    let after = UiView {
                        session: None,
                        segments: Seq::empty(),
                        insertion_count: insertions(session),
                        ..view
                    };
                    if speech_entries(session.entries) == 0 {
                        behind(
                            actions,
                            after.inserting(
                                session.target,
                                assembled(session.entries, Seq::empty()),
                            ),
                        )
                    } else {
                        (
                            UiView { state: DictationState::Transcribing, ..after },
                            actions + seq![
                                tooltip("Ashe Worker - Transcribing... - Win+Shift+H"@),
                                ActionView::Transcribe { session, segments: view.segments },
                            ],
                        )
                    }
                },
            }
        }
    }

    /// Everything in flight is dropped.
    pub open spec fn cancelled(self) -> UiStep {
        if self.state is Idle {
            (self, Seq::empty())
        } else {
            let (view, actions) = self.capture_stopped();
            (
                UiView {
                    heard: None,
                    session: None,
                    segments: Seq::empty(),
                    text_action: None,
                    state: DictationState::Idle,
                    visible: false,
                    failed: false,
                    ..view.bar_cleared()
                },
                actions + seq![
                    ActionView::ResetSpectrum,
                    keyboard_capture(false),
                    ActionView::Send(CommandView::SetActive(false)),
                    tooltip("Ashe Worker - Cancelled - Win+Shift+H"@),
                    ActionView::SyncOverlay,
                ],
            )
        }
    }

    /// A session begins, if the configuration allows one.
    pub open spec fn begun(self, target_hwnd: isize, x: i32, y: i32) -> UiStep {
        match dictation_problem(self.config) {
            Some(problem) => (
                self,
                seq![message_box("Cannot start dictation: "@ + problem.text())],
            ),
            None => (
                UiView {
                    state: DictationState::Starting,
                    visible: true,
                    failed: false,
                    bar_active: true,
                    session: Some(
                        SessionView {
                            target: target_hwnd,
                            rate: self.config.output_sample_rate,
                            audio: Seq::empty(),
                            entries: Seq::empty(),
                            typing: Seq::empty(),
                            transcripts: Seq::empty(),
                        },
                    ),
                    segments: Seq::empty(),
                    insertion_count: 0,
                    elapsed: 0,
                    started_at: None,
                    feedback_until: None,
                    ..self
                },
                seq![
                    ActionView::PlaceOverlay { x, y },
                    tooltip("Ashe Worker - Starting... - Win+Shift+H"@),
                    ActionView::StartAudio(CapturePurpose::Start),
                ],
            ),
        }
    }

    /// The microphone runs.
    pub open spec fn capturing(self, purpose: CapturePurpose, rate: u32, now: u64) -> UiStep {
        (
            UiView {
                capture: Some(rate),
                heard: Some(Heard::start(rate as nat)),
                started_at: Some(now),
                state: DictationState::Listening,
                ..self
            },
            seq![
                ActionView::NewSpectrum(rate),
                tooltip("Ashe Worker - Listening... - Win+Shift+H"@),
            ] + match purpose {
                CapturePurpose::Start => seq![
                    ActionView::Send(CommandView::SetActive(true)),
                    keyboard_capture(true),
                    ActionView::SyncOverlay,
                ],
                CapturePurpose::Resume => seq![ActionView::Send(CommandView::EndTyping)],
            },
        )
    }

    /// The microphone does not run: a new session ends, one that was typing
    /// goes on to its text.
    pub open spec fn not_capturing(
        self,
        purpose: CapturePurpose,
        error: Seq<char>,
        now: u64,
    ) -> UiStep {
        match purpose {
            CapturePurpose::Start => {
                let (view, actions) = self.without_transcript();
                (view, actions.push(message_box("Audio capture failed: "@ + error)))
            },
            CapturePurpose::Resume => behind(
                seq![message_box("Could not resume audio capture: "@ + error)],
                self.stopped(now),
            ),
        }
    }

    /// Typing begins and silences the microphone.
    pub open spec fn typing_begun(self, now: u64) -> UiStep {
        if !self.state.hearing() {
            (self, Seq::empty())
        } else {
            let (view, actions) = self.sealed(now);
            (
                UiView { feedback_until: None, state: DictationState::Typing, ..view },
                actions.push(tooltip("Ashe Worker - Typing - Enter to resume - Win+Shift+H"@)),
            )
        }
    }

    /// With other typing, where typing goes on.
    pub open spec fn with_typing(self, typing: Seq<AtomView>) -> UiView {
        match self.session {
            Some(session) => UiView { session: Some(SessionView { typing, ..session }), ..self },
            None => self,
        }
    }

    pub open spec fn typed(self, text: Seq<char>) -> UiView {
        if self.state is Typing && self.session is Some {
            self.with_typing(self.session->0.typing + typed_atoms(text))
        } else {
            self
        }
    }

    pub open spec fn pasted(self, text: Option<Seq<char>>) -> UiView {
        match text {
            Some(text) => if self.state is Typing && self.session is Some && text.len() > 0 {
                self.with_typing(self.session->0.typing.push(AtomView::Paste(text)))
            } else {
                self
            },
            None => self,
        }
    }

    /// One atom of typing goes; without any left the microphone resumes.
    pub open spec fn backspaced(self) -> UiStep {
        match self.session {
            Some(session) => if self.state is Typing && session.typing.len() > 0 {
                (
                    self.with_typing(session.typing.drop_last()),
                    if session.typing.len() == 1 {
                        seq![ActionView::StartAudio(CapturePurpose::Resume)]
                    } else {
                        Seq::empty()
                    },
                )
            } else {
                (self, Seq::empty())
            },
            None => (self, Seq::empty()),
        }
    }

    /// Typing is committed and the microphone resumes; with nothing typed the
    /// session stops.
    pub open spec fn submitted(self, now: u64) -> UiStep {
        match self.session {
            Some(session) => if self.state is Typing && session.typing.len() > 0 {
                (
                    UiView {
                        session: Some(committed(session)),
                        insertion_count: insertions(committed(session)),
                        ..self
                    },
                    seq![ActionView::StartAudio(CapturePurpose::Resume)],
                )
            } else {
                self.stopped(now)
            },
            None => self.stopped(now),
        }
    }

    /// A line break joins the typing, or stands between two segments.
    pub open spec fn line_broken(self, now: u64) -> UiView {
        if self.state is Typing {
            match self.session {
                Some(session) => self.with_typing(session.typing.push(AtomView::LineBreak)),
                None => self,
            }
        } else if self.state.hearing() {
            let view = self.split();
            match view.session {
                Some(session) => {
                    let session = SessionView {
                        entries: session.entries.push(EntryView::Insertion(seq!['\n'])),
                        ..session
                    };
                    UiView {
                        session: Some(session),
                        insertion_count: insertions(session),
                        feedback_until: Some(later(now, LINE_BREAK_FEEDBACK_NS as int)),
                        ..view
                    }
                },
                None => view,
            }
        } else {
            self
        }
    }

    /// The transcripts are in, or are not to be had. A result that nobody
    /// waits for any more is dropped.
    pub open spec fn transcribed(
        self,
        target_hwnd: isize,
        result: Result<Seq<char>, Seq<char>>,
    ) -> UiStep {
        if !(self.state is Transcribing) {
            (self, Seq::empty())
        } else {
            match result {
                Ok(text) => if text.len() == 0 {
                    self.without_transcript()
                } else {
                    UiView { failed: false, ..self }.inserting(target_hwnd, text)
                },
                Err(_) => behind(
                    seq![tooltip("Ashe Worker - Transcription error - Win+Shift+H"@)],
                    UiView { failed: true, ..self }.hidden(),
                ),
            }
        }
    }

    /// The service has pasted a text, or could not.
    pub open spec fn inserted(self, ok: bool) -> UiStep {
        if ok {
            behind(seq![tooltip("Ashe Worker - Inserted - Win+Shift+H"@)], self.hidden())
        } else {
            behind(
                seq![tooltip("Ashe Worker - Paste error - Win+Shift+H"@)],
                UiView { failed: true, ..self }.hidden(),
            )
        }
    }

    pub open spec fn toggled(self, target_hwnd: isize, x: i32, y: i32, now: u64) -> UiStep {
        if self.voice {
            (self, Seq::empty())
        } else if self.state is Idle {
            self.begun(target_hwnd, x, y)
        } else {
            self.stopped(now)
        }
    }

    /// What keeps a text action from running.
    pub open spec fn action_problem(self, kind: TextActionKind) -> Option<ConfigError> {
        feature_problem(
            self.config,
            match kind {
                TextActionKind::FixGrammar => Feature::Grammar,
                TextActionKind::AnswerQuestion => Feature::Question,
            },
        )
    }

    pub open spec fn action_asked(
        self,
        kind: TextActionKind,
        target_hwnd: isize,
        x: i32,
        y: i32,
    ) -> Seq<ActionView> {
        if !(self.state is Idle) {
            Seq::empty()
        } else {
            match self.action_problem(kind) {
                Some(problem) => seq![message_box("Cannot run text action: "@ + problem.text())],
                None => seq![ActionView::ReadSelection { kind, target_hwnd, x, y }],
            }
        }
    }

    /// The selected text is there, or is not to be had.
    pub open spec fn action_begun(
        self,
        kind: TextActionKind,
        target_hwnd: isize,
        x: i32,
        y: i32,
        selection: Result<Option<Seq<char>>, Seq<char>>,
    ) -> UiStep {
        match selection {
            Err(error) => (
                self,
                seq![message_box("Could not capture selected text: "@ + error)],
            ),
            Ok(None) => (self, seq![tooltip("Ashe Worker - No text selected - Win+Shift+H"@)]),
            Ok(Some(text)) => (
                UiView {
                    state: match kind {
                        TextActionKind::FixGrammar => DictationState::FixingGrammar,
                        TextActionKind::AnswerQuestion => DictationState::AnsweringQuestion,
                    },
                    text_action: Some(TextAction { kind, target_hwnd }),
                    visible: true,
                    failed: false,
                    ..self
                },
                seq![
                    ActionView::PlaceOverlay { x, y },
                    tooltip(
                        match kind {
                            TextActionKind::FixGrammar =>
                                "Ashe Worker - Fixing grammar... - Win+Shift+H"@,
                            TextActionKind::AnswerQuestion =>
                                "Ashe Worker - Answering... - Win+Shift+H"@,
                        },
                    ),
                    ActionView::Send(CommandView::SetFollowCursor(true)),
                    ActionView::Send(CommandView::SetEscapeCapture(true)),
                    ActionView::SyncOverlay,
                    ActionView::RunTextAction { kind, text },
                ],
            ),
        }
    }

    /// The language model has answered, or has not. An answer that nobody
    /// waits for any more is dropped.
    pub open spec fn action_answered(self, result: Result<Seq<char>, Seq<char>>) -> UiStep {
        if !self.state.asking() {
            (self, Seq::empty())
        } else {
            match (self.text_action, result) {
                (None, _) => self.without_transcript(),
                (Some(_), Err(_)) => behind(
                    seq![tooltip("Ashe Worker - LLM error - Win+Shift+H"@)],
                    UiView { failed: true, ..self }.hidden(),
                ),
                (Some(action), Ok(text)) => if trimmed(text).len() == 0 {
                    behind(
                        seq![tooltip("Ashe Worker - Empty result - Win+Shift+H"@)],
                        self.hidden(),
                    )
                } else {
                    let append = action.kind is AnswerQuestion;
                    (
                        UiView { state: DictationState::Inserting, ..self },
                        seq![
                            keyboard_capture(false),
                            ActionView::Send(
                                CommandView::InjectText {
                                    target_hwnd: action.target_hwnd,
                                    text: if append {
                                        "\n\n"@ + text
                                    } else {
                                        text
                                    },
                                    append_after_selection: append,
                                },
                            ),
                        ],
                    )
                },
            }
        }
    }

    pub open spec fn image_asked(self, target_hwnd: isize) -> Seq<ActionView> {
        if !(self.state is Idle) || self.paste_in_flight || target_hwnd == 0 || paste_problem(
            self.config,
        ) is Some {
            Seq::empty()
        } else {
            seq![ActionView::ReadClipboardImage { target_hwnd }]
        }
    }

    pub open spec fn image_read(self, target_hwnd: isize, ok: bool) -> UiStep {
        if ok {
            (
                UiView { paste_in_flight: true, ..self },
                seq![ActionView::UploadImage { target_hwnd }],
            )
        } else {
            (self, Seq::empty())
        }
    }

    pub open spec fn image_uploaded(
        self,
        target_hwnd: isize,
        result: Result<Seq<char>, Seq<char>>,
    ) -> UiStep {
        match result {
            Ok(path) => (
                self,
                seq![ActionView::Send(CommandView::PastePath { target_hwnd, text: path })],
            ),
            Err(_) => (UiView { paste_in_flight: false, ..self }, Seq::empty()),
        }
    }

    pub open spec fn voice_toggled(self) -> UiStep {
        if self.voice {
            if self.voice_stopping {
                (self, Seq::empty())
            } else {
                (
                    UiView { voice_stopping: true, ..self },
                    seq![
                        ActionView::StopVoice,
                        tooltip("Ashe Worker - Voice stopping - Win+Shift+A"@),
                    ],
                )
            }
        } else if self.state is Idle {
            (self, seq![ActionView::StartVoice])
        } else {
            (self, Seq::empty())
        }
    }

    pub open spec fn voice_begun(self, ok: bool) -> UiStep {
        if ok {
            (
                UiView { voice: true, voice_stopping: false, ..self },
                seq![tooltip("Ashe Worker - Voice connecting - Win+Shift+A"@)],
            )
        } else {
            (self, seq![tooltip("Ashe Worker - Voice configuration error - Win+Shift+A"@)])
        }
    }

    pub open spec fn voice_reported(self, event: VoiceEvent) -> UiStep {
        if !self.voice {
            (self, Seq::empty())
        } else {
            match event {
                VoiceEvent::Connected => (
                    self,
                    seq![tooltip("Ashe Worker - Voice active - Win+Shift+A to stop"@)],
                ),
                VoiceEvent::Error(_) => (
                    self,
                    seq![tooltip("Ashe Worker - Voice error - Win+Shift+A"@)],
                ),
                VoiceEvent::Stopped => (
                    UiView { voice: false, voice_stopping: false, ..self },
                    seq![
                        ActionView::FinishVoice,
                        tooltip("Ashe Worker - Voice stopped - Win+Shift+A"@),
                    ],
                ),
            }
        }
    }

    pub open spec fn reload_asked(self) -> Seq<ActionView> {
        if !(self.state is Idle) || self.voice {
            seq![message_box("Stop dictation or voice before reloading config."@)]
        } else {
            seq![ActionView::LoadConfig]
        }
    }

    pub open spec fn quitted(self) -> UiStep {
        let (view, stopping) = self.capture_stopped();
        (
            UiView { voice: false, ..view },
            (if self.voice {
                seq![ActionView::StopVoice, ActionView::FinishVoice]
            } else {
                Seq::empty()
            }) + seq![ActionView::ShutdownActivity] + stopping + seq![
                ActionView::Send(CommandView::Shutdown),
                ActionView::CloseWindow,
            ],
        )
    }

    /// What an event of the window service does.
    pub open spec fn after(self, event: Win32Event, now: u64) -> UiStep {
        match event {
            Win32Event::ToggleRequested { target_hwnd, x, y } => self.toggled(
                target_hwnd,
                x,
                y,
                now,
            ),
            Win32Event::CancelRequested => self.cancelled(),
            Win32Event::SubmitRequested => self.submitted(now),
            Win32Event::LineBreakRequested => (self.line_broken(now), Seq::empty()),
            Win32Event::TypingStarted => self.typing_begun(now),
            Win32Event::TextInput(text) => (self.typed(text@), Seq::empty()),
            Win32Event::BackspaceRequested => self.backspaced(),
            Win32Event::PasteTextRequested => (
                self,
                if self.state is Typing {
                    seq![ActionView::ReadClipboardText]
                } else {
                    Seq::empty()
                },
            ),
            Win32Event::KeyboardCaptureFailed(error) => if self.state.composing() {
                let (view, actions) = self.cancelled();
                (view, actions.push(message_box(error@)))
            } else {
                (self, Seq::empty())
            },
            Win32Event::FixGrammarRequested { target_hwnd, x, y } => (
                self,
                self.action_asked(TextActionKind::FixGrammar, target_hwnd, x, y),
            ),
            Win32Event::AnswerQuestionRequested { target_hwnd, x, y } => (
                self,
                self.action_asked(TextActionKind::AnswerQuestion, target_hwnd, x, y),
            ),
            Win32Event::PasteImageRequested { target_hwnd } => (
                self,
                self.image_asked(target_hwnd),
            ),
            Win32Event::ToggleVoiceRequested => self.voice_toggled(),
            Win32Event::PositionChanged { x, y } => (self, seq![ActionView::AimOverlay { x, y }]),
            Win32Event::ReloadConfigRequested => (self, self.reload_asked()),
            Win32Event::OpenLogRequested => (self, seq![ActionView::OpenLog]),
            Win32Event::CopyLogPathRequested => (self, seq![ActionView::CopyLogPath]),
            Win32Event::ToggleActivityRequested => (self, seq![ActionView::ToggleActivity]),
            Win32Event::OpenArtifactsRequested => (self, seq![ActionView::OpenArtifacts]),
            Win32Event::OpenJournalRequested => (self, seq![ActionView::OpenJournal]),
            Win32Event::AboutRequested => (self, seq![ActionView::ShowAbout]),
            Win32Event::QuitRequested => self.quitted(),
            Win32Event::PasteCompleted(result) => self.inserted(result is Ok),
            Win32Event::PathPasteCompleted(_) => (
                UiView { paste_in_flight: false, ..self },
                Seq::empty(),
            ),
            Win32Event::ServiceStopped => (self, Seq::empty()),
        }
    }
}

/// Append an action.
fn push(out: &mut Vec<UiAction>, action: UiAction)
    ensures
        action_views(final(out)@) == action_views(old(out)@).push(action@),
{
    out.push(action);
    assert(action_views(out@) =~= action_views(old(out)@).push(action@));
}

fn push_tooltip(out: &mut Vec<UiAction>, text: &str)
    ensures
        action_views(final(out)@) == action_views(old(out)@).push(tooltip(text@)),
{
    push(out, UiAction::Send(Win32Command::SetTooltip(text.to_owned())));
}

fn push_message_box(out: &mut Vec<UiAction>, lead: &str, rest: &str)
    ensures
        action_views(final(out)@) == action_views(old(out)@).push(message_box(lead@ + rest@)),
{
    let mut text: Vec<char> = chars_of(lead);
    extend(&mut text, &chars_of(rest));
    push(
        out,
        UiAction::Send(
            Win32Command::ShowMessageBox {
                title: "Ashe Worker".to_owned(),
                text: string_of(&text),
            },
        ),
    );
}

/// The application's state.
pub struct UiApp {
    config: AppConfig,
    state: DictationState,
    capture: Option<u32>,
    current_audio: Option<SilenceCompactor>,
    session: Option<CompositionSession>,
    segments: Vec<Vec<u8>>,
    dictation_bar_active: bool,
    dictation_insertion_count: usize,
    recording_elapsed: u64,
    recording_started_at: Option<u64>,
    line_break_feedback_until: Option<u64>,
    text_action: Option<TextAction>,
    visible: bool,
    failed: bool,
    paste_in_flight: bool,
    voice: bool,
    voice_stopping: bool,
    last_activity_status: String,
}

pub open spec fn heard_view(audio: Option<SilenceCompactor>) -> Option<Heard> {
    match audio {
        Some(compactor) => Some(compactor@),
        None => None,
    }
}

pub open spec fn session_view(session: Option<CompositionSession>) -> Option<SessionView> {
    match session {
        Some(session) => Some(session@),
        None => None,
    }
}

impl View for UiApp {
    type V = UiView;

    closed spec fn view(&self) -> UiView {
        UiView {
            config: self.config@,
            state: self.state,
            capture: self.capture,
            heard: heard_view(self.current_audio),
            session: session_view(self.session),
            segments: byte_views(self.segments@),
            bar_active: self.dictation_bar_active,
            insertion_count: self.dictation_insertion_count as nat,
            elapsed: self.recording_elapsed,
            started_at: self.recording_started_at,
            feedback_until: self.line_break_feedback_until,
            text_action: self.text_action,
            visible: self.visible,
            failed: self.failed,
            paste_in_flight: self.paste_in_flight,
            voice: self.voice,
            voice_stopping: self.voice_stopping,
            activity_key: self.last_activity_status@,
        }
    }
}

/// Segments end to end.
pub open spec fn segments_joined(segments: Seq<Seq<u8>>) -> Seq<u8>
    decreases segments.len(),
{
    if segments.len() == 0 {
        Seq::empty()
    } else {
        segments_joined(segments.drop_last()) + segments.last()
    }
}

/// The segments are the session's: one for each transcript slot, and together
/// its audio.
pub open spec fn segments_fit(session: SessionView, segments: Seq<Seq<u8>>) -> bool {
    &&& segments.len() == session.transcripts.len()
    &&& segments_joined(segments) == session.audio
}

impl UiView {
    pub open spec fn fits(self) -> bool {
        match self.session {
            Some(session) => segments_fit(session, self.segments),
            None => self.segments.len() == 0,
        }
    }
}

impl UiApp {
    /// The parts are well-formed, and the segments are the session's.
    pub closed spec fn wf(&self) -> bool {
        &&& self.current_audio matches Some(compactor) ==> compactor.wf()
        &&& self.session matches Some(session) ==> session.wf()
        &&& self@.fits()
    }

    /// An idle application, and what it does first.
    pub fn new(config: AppConfig) -> (r: (Self, Vec<UiAction>))
        ensures
            r.0.wf(),
            r.0@ == (UiView {
                config: config@,
                state: DictationState::Idle,
                capture: None,
                heard: None,
                session: None,
                segments: Seq::empty(),
                bar_active: false,
                insertion_count: 0,
                elapsed: 0,
                started_at: None,
                feedback_until: None,
                text_action: None,
                visible: false,
                failed: false,
                paste_in_flight: false,
                voice: false,
                voice_stopping: false,
                activity_key: Seq::empty(),
            }),
            action_views(r.1@) == seq![tooltip("Ashe Worker - Idle - Win+Shift+H"@)],
    {
        let app = UiApp {
            config,
            state: DictationState::Idle,
            capture: None,
            current_audio: None,
            session: None,
            segments: Vec::new(),
            dictation_bar_active: false,
            dictation_insertion_count: 0,
            recording_elapsed: 0,
            recording_started_at: None,
            line_break_feedback_until: None,
            text_action: None,
            visible: false,
            failed: false,
            paste_in_flight: false,
            voice: false,
            voice_stopping: false,
            last_activity_status: String::new(),
        };
        let mut out: Vec<UiAction> = Vec::new();
        push_tooltip(&mut out, "Ashe Worker - Idle - Win+Shift+H");
        assert(app@.segments =~= Seq::empty());
        assert(app@.activity_key =~= Seq::empty());
        assert(action_views(out@) =~= seq![tooltip("Ashe Worker - Idle - Win+Shift+H"@)]);
        (app, out)
    }

    pub fn state(&self) -> (r: DictationState)
        ensures
            r == self@.state,
    {
        self.state
    }

    pub fn is_visible(&self) -> (r: bool)
        ensures
            r == self@.visible,
    {
        self.visible
    }

    pub fn config(&self) -> (r: &AppConfig)
        ensures
            r@ == self@.config,
    {
        &self.config
    }

    pub fn recording_duration(&self, now: u64) -> (r: u64)
        ensures
            r == self@.recorded(now),
    {
        match self.recording_started_at {
            Some(since) => self.recording_elapsed.saturating_add(now.saturating_sub(since)),
            None => self.recording_elapsed,
        }
    }

    fn stop_recording_timer(&mut self, now: u64)
        requires
            old(self).wf(),
        ensures
            final(self).wf(),
            final(self)@ == old(self)@.timer_stopped(now),
    {
        self.recording_elapsed = self.recording_duration(now);
        self.recording_started_at = None;
    }

    fn clear_dictation_bar(&mut self)
        requires
            old(self).wf(),
        ensures
            final(self).wf(),
            final(self)@ == old(self)@.bar_cleared(),
    {
        self.dictation_bar_active = false;
        self.dictation_insertion_count = 0;
        self.recording_elapsed = 0;
        self.recording_started_at = None;
        self.line_break_feedback_until = None;
    }

    fn hide_overlay_after_session(&mut self, out: &mut Vec<UiAction>)
        requires
            old(self).wf(),
        ensures
            final(self).wf(),
            final(self)@ == old(self)@.hidden().0,
            action_views(final(out)@) == action_views(old(out)@) + old(self)@.hidden().1,
    {
        self.session = None;
        self.segments = Vec::new();
        self.current_audio = None;
        self.text_action = None;
        self.state = DictationState::Idle;
        self.visible = false;
        assert(self@.segments =~= Seq::empty());
        self.clear_dictation_bar();
        push(out, UiAction::RestOverlay);
        push(out, UiAction::Send(Win32Command::SetKeyboardCapture(false)));
        push(out, UiAction::Send(Win32Command::SetActive(false)));
        push(out, UiAction::Send(Win32Command::SetFollowCursor(false)));
        push(out, UiAction::SyncOverlay);
        assert(action_views(out@) =~= action_views(old(out)@) + old(self)@.hidden().1);
    }

    fn finish_without_transcript(&mut self, out: &mut Vec<UiAction>)
        requires
            old(self).wf(),
        ensures
            final(self).wf(),
            final(self)@ == old(self)@.without_transcript().0,
            action_views(final(out)@) == action_views(old(out)@)
                + old(self)@.without_transcript().1,
    {
        push_tooltip(out, "Ashe Worker - Idle - Win+Shift+H");
        self.hide_overlay_after_session(out);
        assert(action_views(out@) =~= action_views(old(out)@)
            + old(self)@.without_transcript().1);
    }

    fn stop_capture(&mut self, out: &mut Vec<UiAction>)
        requires
            old(self).wf(),
        ensures
            final(self).wf(),
            final(self)@ == old(self)@.capture_stopped().0,
            action_views(final(out)@) == action_views(old(out)@) + old(self)@.capture_stopped().1,
    {
        if self.capture.is_some() {
            self.capture = None;
            push(out, UiAction::StopAudio);
        }
        assert(action_views(out@) =~= action_views(old(out)@) + old(self)@.capture_stopped().1);
    }

    fn commit_current_audio_segment(&mut self)
        requires
            old(self).wf(),
        ensures
            final(self).wf(),
            final(self)@ == old(self)@.segment_committed(),
    {
        let ghost before = self@;
        let current: Option<SilenceCompactor> = self.current_audio.take();
        if let Some(compactor) = current {
            if let Some(pcm) = compactor.finish() {
                if let Some(session) = &mut self.session {
                    let mut copy: Vec<u8> = Vec::new();
                    append_bytes(&mut copy, &pcm);
                    assert(copy@ =~= pcm@);
                    if session.push_speech(pcm).is_some() {
                        self.segments.push(copy);
                        assert(self@.segments =~= before.segments.push(copy@));
                        assert(self@.segments.drop_last() =~= before.segments);
                    }
                }
            }
        }
    }

    fn seal_current_audio(&mut self, now: u64, out: &mut Vec<UiAction>)
        requires
            old(self).wf(),
        ensures
            final(self).wf(),
            final(self)@ == old(self)@.sealed(now).0,
            action_views(final(out)@) == action_views(old(out)@) + old(self)@.sealed(now).1,
    {
        self.stop_recording_timer(now);
        self.stop_capture(out);
        self.commit_current_audio_segment();
        push(out, UiAction::ResetSpectrum);
        assert(action_views(out@) =~= action_views(old(out)@) + old(self)@.sealed(now).1);
    }

    fn split_current_audio_segment(&mut self)
        requires
            old(self).wf(),
        ensures
            final(self).wf(),
            final(self)@ == old(self)@.split(),
    {
        let rate: u32 = match self.capture {
            Some(rate) => rate,
            None => self.config.output_sample_rate,
        };
        self.commit_current_audio_segment();
        self.current_audio = Some(SilenceCompactor::new(rate));
    }

    /// Hear one chunk of the running capture, with the signal decision of the
    /// visualizer.
    pub fn process_audio_chunk(&mut self, chunk: &[u8], signal_active: bool)
        requires
            old(self).wf(),
        ensures
            final(self).wf(),
            final(self)@ == (UiView {
                heard: match old(self)@.heard {
                    Some(heard) => Some(heard.after(chunk@, signal_active)),
                    None => None,
                },
                ..old(self)@
            }),
    {
        if let Some(compactor) = &mut self.current_audio {
            compactor.push_pcm(chunk, signal_active);
        }
    }

    /// Bytes of audio that the session and its current segment hold.
    pub fn retained_audio_bytes(&self) -> (r: usize)
        requires
            self.wf(),
        ensures
            r == self@.retained(),
    {
        let sealed: usize = match &self.session {
            Some(session) => session.audio_bytes(),
            None => 0,
        };
        let current: usize = match &self.current_audio {
            Some(compactor) => compactor.estimated_bytes(),
            None => 0,
        };
        sealed.saturating_add(current)
    }

    /// Stop a session whose audio has grown past the safety ceiling.
    pub fn pump_audio_capture(&mut self, now: u64) -> (r: Vec<UiAction>)
        requires
            old(self).wf(),
        ensures
            final(self).wf(),
            final(self)@ == old(self)@.pumped(now).0,
            action_views(r@) == old(self)@.pumped(now).1,
    {
        if self.state.is_hearing() && self.retained_audio_bytes() >= MAX_SESSION_PCM_BYTES {
            self.request_stop(now)
        } else {
            let out: Vec<UiAction> = Vec::new();
            assert(action_views(out@) =~= Seq::empty());
            out
        }
    }

    fn begin_dictation_insert(&mut self, target_hwnd: isize, text: String, out: &mut Vec<UiAction>)
        requires
            old(self).wf(),
        ensures
            final(self).wf(),
            final(self)@ == old(self)@.inserting(target_hwnd, text@).0,
            action_views(final(out)@) == action_views(old(out)@) + old(self)@.inserting(
                target_hwnd,
                text@,
            ).1,
    {
        if chars_of(&text).len() == 0 {
            self.finish_without_transcript(out);
            return;
        }
        self.state = DictationState::Inserting;
        push(out, UiAction::Send(Win32Command::PasteText { target_hwnd, text }));
        assert(action_views(out@) =~= action_views(old(out)@) + old(self)@.inserting(
            target_hwnd,
            text@,
        ).1);
    }

    /// End the input of the session and go on to its text.
    pub fn request_stop(&mut self, now: u64) -> (r: Vec<UiAction>)
        requires
            old(self).wf(),
        ensures
            final(self).wf(),
            final(self)@ == old(self)@.stopped(now).0,
            action_views(r@) == old(self)@.stopped(now).1,
    {
        let mut out: Vec<UiAction> = Vec::new();
        assert(action_views(out@) =~= Seq::empty());
        self.stop_into(now, &mut out);
        assert(action_views(out@) =~= old(self)@.stopped(now).1);
        out
    }

    fn stop_into(&mut self, now: u64, out: &mut Vec<UiAction>)
        requires
            old(self).wf(),
        ensures
            final(self).wf(),
            final(self)@ == old(self)@.stopped(now).0,
            action_views(final(out)@) == action_views(old(out)@) + old(self)@.stopped(now).1,
    {
        let ghost before = self@;
        let ghost earlier = action_views(out@);
        if !self.state.is_composing() {
            assert(action_views(out@) =~= earlier + before.stopped(now).1);
            return;
        }
        let typing: bool = matches!(self.state, DictationState::Typing);
        self.seal_current_audio(now, out);
        let ghost sealed = self@;
        push(out, UiAction::Send(Win32Command::SetKeyboardCapture(false)));
        let current: Option<CompositionSession> = self.session.take();
        let mut segments: Vec<Vec<u8>> = Vec::new();
        assert(byte_views(segments@) =~= Seq::empty());
        core::mem::swap(&mut segments, &mut self.segments);
        match current {
            None => {
                self.finish_without_transcript(out);
            },
            Some(open) => {
                let mut session: CompositionSession = open;
                if typing {
                    session.commit_insertion();
                }
                self.dictation_insertion_count = session.insertion_count();
                if session.speech_count() == 0 {
                    let composition: FinalComposition = session.finish();
                    let target_hwnd: isize = composition.target_hwnd();
                    match composition.assemble() {
                        Ok(text) => self.begin_dictation_insert(target_hwnd, text, out),
                        Err(_) => self.finish_without_transcript(out),
                    }
                } else {
                    self.state = DictationState::Transcribing;
                    push_tooltip(out, "Ashe Worker - Transcribing... - Win+Shift+H");
                    push(out, UiAction::Transcribe { session, segments });
                }
            },
        }
        assert(action_views(out@) =~= earlier + before.stopped(now).1);
    }
}

impl UiView {
    /// Bytes of audio that are held, up to what a machine can count.
    pub open spec fn retained(self) -> int {
        let sealed = match self.session {
            Some(session) => session.audio.len() as int,
            None => 0,
        };
        let current = match self.heard {
            Some(heard) => heard.audio().len() as int,
            None => 0,
        };
        if sealed + current <= usize::MAX {
            sealed + current
        } else {
            usize::MAX as int
        }
    }

    pub open spec fn pumped(self, now: u64) -> UiStep {
        if self.state.hearing() && self.retained() >= MAX_SESSION_PCM_BYTES {
            self.stopped(now)
        } else {
            (self, Seq::empty())
        }
    }
}

/// A result with its texts as sequences.
pub open spec fn result_view(result: Result<String, String>) -> Result<Seq<char>, Seq<char>> {
    match result {
        Ok(text) => Ok(text@),
        Err(error) => Err(error@),
    }
}

pub open spec fn selection_view(result: Result<Option<String>, String>) -> Result<
    Option<Seq<char>>,
    Seq<char>,
> {
    match result {
        Ok(Some(text)) => Ok(Some(text@)),
        Ok(None) => Ok(None),
        Err(error) => Err(error@),
    }
}

impl UiApp {
    /// Drop whatever is in flight.
    pub fn cancel_operation(&mut self) -> (r: Vec<UiAction>)
        requires
            old(self).wf(),
        ensures
            final(self).wf(),
            final(self)@ == old(self)@.cancelled().0,
            action_views(r@) == old(self)@.cancelled().1,
    {
        let mut out: Vec<UiAction> = Vec::new();
        assert(action_views(out@) =~= Seq::empty());
        if !matches!(self.state, DictationState::Idle) {
            self.stop_capture(&mut out);
            self.current_audio = None;
            self.session = None;
            self.segments = Vec::new();
            self.text_action = None;
            self.state = DictationState::Idle;
            self.visible = false;
            self.failed = false;
            assert(self@.segments =~= Seq::empty());
            self.clear_dictation_bar();
            push(&mut out, UiAction::ResetSpectrum);
            push(&mut out, UiAction::Send(Win32Command::SetKeyboardCapture(false)));
            push(&mut out, UiAction::Send(Win32Command::SetActive(false)));
            push_tooltip(&mut out, "Ashe Worker - Cancelled - Win+Shift+H");
            push(&mut out, UiAction::SyncOverlay);
        }
        assert(action_views(out@) =~= old(self)@.cancelled().1);
        out
    }

    /// Begin a session for a window, with the overlay at a point.
    pub fn start(&mut self, target_hwnd: isize, x: i32, y: i32) -> (r: Vec<UiAction>)
        requires
            old(self).wf(),
        ensures
            final(self).wf(),
            final(self)@ == old(self)@.begun(target_hwnd, x, y).0,
            action_views(r@) == old(self)@.begun(target_hwnd, x, y).1,
    {
        let mut out: Vec<UiAction> = Vec::new();
        assert(action_views(out@) =~= Seq::empty());
        match self.config.validate_for_dictation() {
            Err(problem) => push_message_box(
                &mut out,
                "Cannot start dictation: ",
                problem.message(),
            ),
            Ok(()) => {
                self.state = DictationState::Starting;
                self.visible = true;
                self.failed = false;
                self.dictation_bar_active = true;
                self.dictation_insertion_count = 0;
                self.recording_elapsed = 0;
                self.recording_started_at = None;
                self.line_break_feedback_until = None;
                self.session = Some(
                    CompositionSession::new(target_hwnd, self.config.output_sample_rate),
                );
                self.segments = Vec::new();
                assert(self@.segments =~= Seq::empty());
                push(&mut out, UiAction::PlaceOverlay { x, y });
                push_tooltip(&mut out, "Ashe Worker - Starting... - Win+Shift+H");
                push(&mut out, UiAction::StartAudio(CapturePurpose::Start));
            },
        }
        assert(action_views(out@) =~= old(self)@.begun(target_hwnd, x, y).1);
        out
    }

    /// The microphone that `StartAudio` asked for runs at a rate, or an error
    /// says why it does not.
    pub fn audio_started(
        &mut self,
        purpose: CapturePurpose,
        result: Result<u32, String>,
        now: u64,
    ) -> (r: Vec<UiAction>)
        requires
            old(self).wf(),
        ensures
            final(self).wf(),
            ({
                let step = match result {
                    Ok(rate) => old(self)@.capturing(purpose, rate, now),
                    Err(error) => old(self)@.not_capturing(purpose, error@, now),
                };
                &&& final(self)@ == step.0
                &&& action_views(r@) == step.1
            }),
    {
        let mut out: Vec<UiAction> = Vec::new();
        assert(action_views(out@) =~= Seq::empty());
        match result {
            Ok(rate) => {
                self.capture = Some(rate);
                self.current_audio = Some(SilenceCompactor::new(rate));
                self.recording_started_at = Some(now);
                self.state = DictationState::Listening;
                push(&mut out, UiAction::NewSpectrum(rate));
                push_tooltip(&mut out, "Ashe Worker - Listening... - Win+Shift+H");
                match purpose {
                    CapturePurpose::Start => {
                        push(&mut out, UiAction::Send(Win32Command::SetActive(true)));
                        push(&mut out, UiAction::Send(Win32Command::SetKeyboardCapture(true)));
                        push(&mut out, UiAction::SyncOverlay);
                    },
                    CapturePurpose::Resume => {
                        push(&mut out, UiAction::Send(Win32Command::EndTyping));
                    },
                }
                assert(action_views(out@) =~= old(self)@.capturing(purpose, rate, now).1);
            },
            Err(error) => {
                match purpose {
                    CapturePurpose::Start => {
                        self.finish_without_transcript(&mut out);
                        push_message_box(&mut out, "Audio capture failed: ", &error);
                    },
                    CapturePurpose::Resume => {
                        push_message_box(&mut out, "Could not resume audio capture: ", &error);
                        self.stop_into(now, &mut out);
                    },
                }
                assert(action_views(out@) =~= old(self)@.not_capturing(
                    purpose,
                    error@,
                    now,
                ).1);
            },
        }
        out
    }

    /// Switch from speech to typing.
    pub fn begin_typing(&mut self, now: u64) -> (r: Vec<UiAction>)
        requires
            old(self).wf(),
        ensures
            final(self).wf(),
            final(self)@ == old(self)@.typing_begun(now).0,
            action_views(r@) == old(self)@.typing_begun(now).1,
    {
        let mut out: Vec<UiAction> = Vec::new();
        assert(action_views(out@) =~= Seq::empty());
        if self.state.is_hearing() {
            self.seal_current_audio(now, &mut out);
            self.line_break_feedback_until = None;
            self.state = DictationState::Typing;
            push_tooltip(&mut out, "Ashe Worker - Typing - Enter to resume - Win+Shift+H");
        }
        assert(action_views(out@) =~= old(self)@.typing_begun(now).1);
        out
    }

    pub fn capture_typed_text(&mut self, text: &str)
        requires
            old(self).wf(),
        ensures
            final(self).wf(),
            final(self)@ == old(self)@.typed(text@),
    {
        if matches!(self.state, DictationState::Typing) {
            if let Some(session) = &mut self.session {
                session.push_typed_text(text);
            }
        }
    }

    /// The text that `ReadClipboardText` found.
    pub fn paste_text(&mut self, text: Option<String>)
        requires
            old(self).wf(),
        ensures
            final(self).wf(),
            final(self)@ == old(self)@.pasted(
                match text {
                    Some(text) => Some(text@),
                    None => None,
                },
            ),
    {
        if matches!(self.state, DictationState::Typing) {
            if let Some(text) = text {
                if let Some(session) = &mut self.session {
                    session.push_pasted_text(text);
                }
            }
        }
    }

    pub fn capture_backspace(&mut self) -> (r: Vec<UiAction>)
        requires
            old(self).wf(),
        ensures
            final(self).wf(),
            final(self)@ == old(self)@.backspaced().0,
            action_views(r@) == old(self)@.backspaced().1,
    {
        let mut out: Vec<UiAction> = Vec::new();
        assert(action_views(out@) =~= Seq::empty());
        let mut cleared: bool = false;
        if matches!(self.state, DictationState::Typing) {
            if let Some(session) = &mut self.session {
                cleared = session.backspace() && session.typing_is_empty();
            }
        }
        if cleared {
            push(&mut out, UiAction::StartAudio(CapturePurpose::Resume));
        }
        assert(action_views(out@) =~= old(self)@.backspaced().1);
        out
    }

    pub fn handle_submit(&mut self, now: u64) -> (r: Vec<UiAction>)
        requires
            old(self).wf(),
        ensures
            final(self).wf(),
            final(self)@ == old(self)@.submitted(now).0,
            action_views(r@) == old(self)@.submitted(now).1,
    {
        let mut out: Vec<UiAction> = Vec::new();
        assert(action_views(out@) =~= Seq::empty());
        let typing: bool = matches!(self.state, DictationState::Typing);
        let mut count: Option<usize> = None;
        if typing {
            if let Some(session) = &mut self.session {
                if session.commit_insertion() {
                    count = Some(session.insertion_count());
                }
            }
        }
        match count {
            Some(count) => {
                self.dictation_insertion_count = count;
                push(&mut out, UiAction::StartAudio(CapturePurpose::Resume));
            },
            None => self.stop_into(now, &mut out),
        }
        assert(action_views(out@) =~= old(self)@.submitted(now).1);
        out
    }

    pub fn handle_line_break(&mut self, now: u64)
        requires
            old(self).wf(),
        ensures
            final(self).wf(),
            final(self)@ == old(self)@.line_broken(now),
    {
        if matches!(self.state, DictationState::Typing) {
            if let Some(session) = &mut self.session {
                session.push_typed_line_break();
            }
            return;
        }
        if !self.state.is_hearing() {
            return;
        }
        self.split_current_audio_segment();
        let mut count: Option<usize> = None;
        if let Some(session) = &mut self.session {
            session.commit_line_break();
            count = Some(session.insertion_count());
        }
        if let Some(count) = count {
            self.dictation_insertion_count = count;
            self.line_break_feedback_until = Some(now.saturating_add(LINE_BREAK_FEEDBACK_NS));
        }
    }

    /// The text that `Transcribe` asked for.
    pub fn finish_transcription(
        &mut self,
        target_hwnd: isize,
        result: Result<String, String>,
    ) -> (r: Vec<UiAction>)
        requires
            old(self).wf(),
        ensures
            final(self).wf(),
            final(self)@ == old(self)@.transcribed(target_hwnd, result_view(result)).0,
            action_views(r@) == old(self)@.transcribed(target_hwnd, result_view(result)).1,
    {
        let mut out: Vec<UiAction> = Vec::new();
        assert(action_views(out@) =~= Seq::empty());
        if matches!(self.state, DictationState::Transcribing) {
            match result {
                Ok(text) => {
                    if chars_of(&text).len() == 0 {
                        self.finish_without_transcript(&mut out);
                    } else {
                        self.failed = false;
                        self.begin_dictation_insert(target_hwnd, text, &mut out);
                    }
                },
                Err(_) => {
                    self.failed = true;
                    push_tooltip(&mut out, "Ashe Worker - Transcription error - Win+Shift+H");
                    self.hide_overlay_after_session(&mut out);
                },
            }
        }
        assert(action_views(out@) =~= old(self)@.transcribed(target_hwnd, result_view(result)).1);
        out
    }

    pub fn finish_insert(&mut self, ok: bool) -> (r: Vec<UiAction>)
        requires
            old(self).wf(),
        ensures
            final(self).wf(),
            final(self)@ == old(self)@.inserted(ok).0,
            action_views(r@) == old(self)@.inserted(ok).1,
    {
        let mut out: Vec<UiAction> = Vec::new();
        assert(action_views(out@) =~= Seq::empty());
        if ok {
            push_tooltip(&mut out, "Ashe Worker - Inserted - Win+Shift+H");
        } else {
            self.failed = true;
            push_tooltip(&mut out, "Ashe Worker - Paste error - Win+Shift+H");
        }
        self.hide_overlay_after_session(&mut out);
        assert(action_views(out@) =~= old(self)@.inserted(ok).1);
        out
    }

    /// Begin a session, or end the input of the one there is.
    pub fn toggle(&mut self, target_hwnd: isize, x: i32, y: i32, now: u64) -> (r: Vec<UiAction>)
        requires
            old(self).wf(),
        ensures
            final(self).wf(),
            final(self)@ == old(self)@.toggled(target_hwnd, x, y, now).0,
            action_views(r@) == old(self)@.toggled(target_hwnd, x, y, now).1,
    {
        let mut out: Vec<UiAction> = Vec::new();
        assert(action_views(out@) =~= Seq::empty());
        if !self.voice {
            if matches!(self.state, DictationState::Idle) {
                return self.start(target_hwnd, x, y);
            }
            self.stop_into(now, &mut out);
        }
        assert(action_views(out@) =~= old(self)@.toggled(target_hwnd, x, y, now).1);
        out
    }

    /// Ask for a text action on the selected text.
    pub fn begin_text_action(&self, kind: TextActionKind, target_hwnd: isize, x: i32, y: i32) -> (r:
        Vec<UiAction>)
        ensures
            action_views(r@) == self@.action_asked(kind, target_hwnd, x, y),
    {
        let mut out: Vec<UiAction> = Vec::new();
        assert(action_views(out@) =~= Seq::empty());
        if matches!(self.state, DictationState::Idle) {
            let validation: Result<(), ConfigError> = match kind {
                TextActionKind::FixGrammar => self.config.validate_for_grammar(),
                TextActionKind::AnswerQuestion => self.config.validate_for_question(),
            };
            match validation {
                Err(problem) => push_message_box(
                    &mut out,
                    "Cannot run text action: ",
                    problem.message(),
                ),
                Ok(()) => push(&mut out, UiAction::ReadSelection { kind, target_hwnd, x, y }),
            }
        }
        assert(action_views(out@) =~= self@.action_asked(kind, target_hwnd, x, y));
        out
    }

    /// The text that `ReadSelection` found. Only Escape is captured meanwhile.
    pub fn selection_captured(&mut self,
        kind: TextActionKind,
        target_hwnd: isize,
        x: i32,
        y: i32,
        selection: Result<Option<String>, String>,
    ) -> (r: Vec<UiAction>)
        requires
            old(self).wf(),
        ensures
            final(self).wf(),
            final(self)@ == old(self)@.action_begun(
                kind,
                target_hwnd,
                x,
                y,
                selection_view(selection),
            ).0,
            action_views(r@) == old(self)@.action_begun(
                kind,
                target_hwnd,
                x,
                y,
                selection_view(selection),
            ).1,
    {
        let mut out: Vec<UiAction> = Vec::new();
        assert(action_views(out@) =~= Seq::empty());
        match selection {
            Err(error) => push_message_box(
                &mut out,
                "Could not capture selected text: ",
                &error,
            ),
            Ok(None) => push_tooltip(&mut out, "Ashe Worker - No text selected - Win+Shift+H"),
            Ok(Some(text)) => {
                self.text_action = Some(TextAction { kind, target_hwnd });
                self.visible = true;
                self.failed = false;
                push(&mut out, UiAction::PlaceOverlay { x, y });
                match kind {
                    TextActionKind::FixGrammar => {
                        self.state = DictationState::FixingGrammar;
                        push_tooltip(&mut out, "Ashe Worker - Fixing grammar... - Win+Shift+H");
                    },
                    TextActionKind::AnswerQuestion => {
                        self.state = DictationState::AnsweringQuestion;
                        push_tooltip(&mut out, "Ashe Worker - Answering... - Win+Shift+H");
                    },
                }
                push(&mut out, UiAction::Send(Win32Command::SetFollowCursor(true)));
                push(&mut out, UiAction::Send(Win32Command::SetEscapeCapture(true)));
                push(&mut out, UiAction::SyncOverlay);
                push(&mut out, UiAction::RunTextAction { kind, text });
            },
        }
        assert(action_views(out@) =~= old(self)@.action_begun(
            kind,
            target_hwnd,
            x,
            y,
            selection_view(selection),
        ).1);
        out
    }

    /// The answer that `RunTextAction` asked for.
    pub fn finish_text_action(&mut self, result: Result<String, String>) -> (r: Vec<UiAction>)
        requires
            old(self).wf(),
        ensures
            final(self).wf(),
            final(self)@ == old(self)@.action_answered(result_view(result)).0,
            action_views(r@) == old(self)@.action_answered(result_view(result)).1,
    {
        let mut out: Vec<UiAction> = Vec::new();
        assert(action_views(out@) =~= Seq::empty());
        if self.state.is_asking() {
            match self.text_action {
                None => self.finish_without_transcript(&mut out),
                Some(action) => match result {
                    Err(_) => {
                        self.failed = true;
                        push_tooltip(&mut out, "Ashe Worker - LLM error - Win+Shift+H");
                        self.hide_overlay_after_session(&mut out);
                    },
                    Ok(text) => {
                        if is_blank(&text) {
                            push_tooltip(&mut out, "Ashe Worker - Empty result - Win+Shift+H");
                            self.hide_overlay_after_session(&mut out);
                        } else {
                            let append: bool = matches!(
                                action.kind,
                                TextActionKind::AnswerQuestion
                            );
                            let text: String = if append {
                                let mut spaced: Vec<char> = chars_of("\n\n");
                                extend(&mut spaced, &chars_of(&text));
                                string_of(&spaced)
                            } else {
                                text
                            };
                            self.state = DictationState::Inserting;
                            push(
                                &mut out,
                                UiAction::Send(Win32Command::SetKeyboardCapture(false)),
                            );
                            push(
                                &mut out,
                                UiAction::Send(
                                    Win32Command::InjectText {
                                        target_hwnd: action.target_hwnd,
                                        text,
                                        append_after_selection: append,
                                    },
                                ),
                            );
                        }
                    },
                },
            }
        }
        assert(action_views(out@) =~= old(self)@.action_answered(result_view(result)).1);
        out
    }

    /// Ask for the clipboard's image to be uploaded and its path pasted.
    pub fn begin_image_paste(&self, target_hwnd: isize) -> (r: Vec<UiAction>)
        ensures
            action_views(r@) == self@.image_asked(target_hwnd),
    {
        let mut out: Vec<UiAction> = Vec::new();
        assert(action_views(out@) =~= Seq::empty());
        if matches!(self.state, DictationState::Idle) && !self.paste_in_flight && target_hwnd != 0 {
            if self.config.validate_for_paste().is_ok() {
                push(&mut out, UiAction::ReadClipboardImage { target_hwnd });
            }
        }
        assert(action_views(out@) =~= self@.image_asked(target_hwnd));
        out
    }

    /// Whether `ReadClipboardImage` found an image.
    pub fn image_captured(&mut self, target_hwnd: isize, ok: bool) -> (r: Vec<UiAction>)
        requires
            old(self).wf(),
        ensures
            final(self).wf(),
            final(self)@ == old(self)@.image_read(target_hwnd, ok).0,
            action_views(r@) == old(self)@.image_read(target_hwnd, ok).1,
    {
        let mut out: Vec<UiAction> = Vec::new();
        assert(action_views(out@) =~= Seq::empty());
        if ok {
            self.paste_in_flight = true;
            push(&mut out, UiAction::UploadImage { target_hwnd });
        }
        assert(action_views(out@) =~= old(self)@.image_read(target_hwnd, ok).1);
        out
    }

    /// The remote path that `UploadImage` yields.
    pub fn finish_image_upload(
        &mut self,
        target_hwnd: isize,
        result: Result<String, String>,
    ) -> (r: Vec<UiAction>)
        requires
            old(self).wf(),
        ensures
            final(self).wf(),
            final(self)@ == old(self)@.image_uploaded(target_hwnd, result_view(result)).0,
            action_views(r@) == old(self)@.image_uploaded(target_hwnd, result_view(result)).1,
    {
        let mut out: Vec<UiAction> = Vec::new();
        assert(action_views(out@) =~= Seq::empty());
        match result {
            Ok(path) => push(
                &mut out,
                UiAction::Send(Win32Command::PastePath { target_hwnd, text: path }),
            ),
            Err(_) => {
                self.paste_in_flight = false;
            },
        }
        assert(action_views(out@) =~= old(self)@.image_uploaded(
            target_hwnd,
            result_view(result),
        ).1);
        out
    }

    pub fn toggle_voice(&mut self) -> (r: Vec<UiAction>)
        requires
            old(self).wf(),
        ensures
            final(self).wf(),
            final(self)@ == old(self)@.voice_toggled().0,
            action_views(r@) == old(self)@.voice_toggled().1,
    {
        let mut out: Vec<UiAction> = Vec::new();
        assert(action_views(out@) =~= Seq::empty());
        if self.voice {
            if !self.voice_stopping {
                self.voice_stopping = true;
                push(&mut out, UiAction::StopVoice);
                push_tooltip(&mut out, "Ashe Worker - Voice stopping - Win+Shift+A");
            }
        } else if matches!(self.state, DictationState::Idle) {
            push(&mut out, UiAction::StartVoice);
        }
        assert(action_views(out@) =~= old(self)@.voice_toggled().1);
        out
    }

    /// Whether `StartVoice` could start a session.
    pub fn voice_started(&mut self, ok: bool) -> (r: Vec<UiAction>)
        requires
            old(self).wf(),
        ensures
            final(self).wf(),
            final(self)@ == old(self)@.voice_begun(ok).0,
            action_views(r@) == old(self)@.voice_begun(ok).1,
    {
        let mut out: Vec<UiAction> = Vec::new();
        assert(action_views(out@) =~= Seq::empty());
        if ok {
            self.voice = true;
            self.voice_stopping = false;
            push_tooltip(&mut out, "Ashe Worker - Voice connecting - Win+Shift+A");
        } else {
            push_tooltip(&mut out, "Ashe Worker - Voice configuration error - Win+Shift+A");
        }
        assert(action_views(out@) =~= old(self)@.voice_begun(ok).1);
        out
    }

    /// What the voice session reports.
    pub fn pump_voice(&mut self, event: VoiceEvent) -> (r: Vec<UiAction>)
        requires
            old(self).wf(),
        ensures
            final(self).wf(),
            final(self)@ == old(self)@.voice_reported(event).0,
            action_views(r@) == old(self)@.voice_reported(event).1,
    {
        let mut out: Vec<UiAction> = Vec::new();
        assert(action_views(out@) =~= Seq::empty());
        if self.voice {
            match event {
                VoiceEvent::Connected => push_tooltip(
                    &mut out,
                    "Ashe Worker - Voice active - Win+Shift+A to stop",
                ),
                VoiceEvent::Error(_) => push_tooltip(
                    &mut out,
                    "Ashe Worker - Voice error - Win+Shift+A",
                ),
                VoiceEvent::Stopped => {
                    self.voice = false;
                    self.voice_stopping = false;
                    push(&mut out, UiAction::FinishVoice);
                    push_tooltip(&mut out, "Ashe Worker - Voice stopped - Win+Shift+A");
                },
            }
        }
        assert(action_views(out@) =~= old(self)@.voice_reported(event).1);
        out
    }

    pub fn reload_config(&self) -> (r: Vec<UiAction>)
        ensures
            action_views(r@) == self@.reload_asked(),
    {
        let mut out: Vec<UiAction> = Vec::new();
        assert(action_views(out@) =~= Seq::empty());
        if !matches!(self.state, DictationState::Idle) || self.voice {
            push_message_box(&mut out, "Stop dictation or voice before reloading config.", "");
            proof {
                reveal_strlit("");
                assert("Stop dictation or voice before reloading config."@ + ""@
                    =~= "Stop dictation or voice before reloading config."@);
            }
        } else {
            push(&mut out, UiAction::LoadConfig);
        }
        assert(action_views(out@) =~= self@.reload_asked());
        out
    }

    /// The configuration that `LoadConfig` found.
    pub fn config_reloaded(&mut self, config: AppConfig) -> (r: Vec<UiAction>)
        requires
            old(self).wf(),
        ensures
            final(self).wf(),
            final(self)@ == (UiView { config: config@, ..old(self)@ }),
            action_views(r@) == seq![
                ActionView::RestartActivity,
                tooltip("Ashe Worker - Config reloaded - Win+Shift+H"@),
            ],
    {
        self.config = config;
        let mut out: Vec<UiAction> = Vec::new();
        push(&mut out, UiAction::RestartActivity);
        push_tooltip(&mut out, "Ashe Worker - Config reloaded - Win+Shift+H");
        assert(action_views(out@) =~= seq![
            ActionView::RestartActivity,
            tooltip("Ashe Worker - Config reloaded - Win+Shift+H"@),
        ]);
        out
    }

    pub fn quit(&mut self) -> (r: Vec<UiAction>)
        requires
            old(self).wf(),
        ensures
            final(self).wf(),
            final(self)@ == old(self)@.quitted().0,
            action_views(r@) == old(self)@.quitted().1,
    {
        let mut out: Vec<UiAction> = Vec::new();
        assert(action_views(out@) =~= Seq::empty());
        if self.voice {
            self.voice = false;
            push(&mut out, UiAction::StopVoice);
            push(&mut out, UiAction::FinishVoice);
        }
        push(&mut out, UiAction::ShutdownActivity);
        self.stop_capture(&mut out);
        push(&mut out, UiAction::Send(Win32Command::Shutdown));
        push(&mut out, UiAction::CloseWindow);
        assert(action_views(out@) =~= old(self)@.quitted().1);
        out
    }

    /// Whether an event will end the running capture. The microphone is then
    /// stopped first, and what it has still queued goes through
    /// `process_audio_chunk` before the event is taken, so that no recorded
    /// speech is lost.
    pub fn ends_capture(&self, event: &Win32Event) -> (r: bool)
        ensures
            forall|now: u64|
                r == (self@.capture is Some && (#[trigger] self@.after(*event, now)).0.capture
                    is None),
    {
        if self.capture.is_none() {
            return false;
        }
        match event {
            Win32Event::ToggleRequested { .. } => !self.voice && self.state.is_composing(),
            Win32Event::CancelRequested => !matches!(self.state, DictationState::Idle),
            Win32Event::SubmitRequested => {
                let commits: bool = match &self.session {
                    Some(session) => matches!(self.state, DictationState::Typing)
                        && !session.typing_is_empty(),
                    None => false,
                };
                !commits && self.state.is_composing()
            },
            Win32Event::TypingStarted => self.state.is_hearing(),
            Win32Event::KeyboardCaptureFailed(_) => self.state.is_composing(),
            Win32Event::QuitRequested => true,
            _ => false,
        }
    }

    /// Take one event of the window service.
    pub fn handle_win32_event(&mut self, event: Win32Event, now: u64) -> (r: Vec<UiAction>)
        requires
            old(self).wf(),
        ensures
            final(self).wf(),
            final(self)@ == old(self)@.after(event, now).0,
            action_views(r@) == old(self)@.after(event, now).1,
    {
        let mut out: Vec<UiAction> = Vec::new();
        assert(action_views(out@) =~= Seq::empty());
        match event {
            Win32Event::ToggleRequested { target_hwnd, x, y } => {
                return self.toggle(target_hwnd, x, y, now);
            },
            Win32Event::CancelRequested => {
                return self.cancel_operation();
            },
            Win32Event::SubmitRequested => {
                return self.handle_submit(now);
            },
            Win32Event::LineBreakRequested => self.handle_line_break(now),
            Win32Event::TypingStarted => {
                return self.begin_typing(now);
            },
            Win32Event::TextInput(text) => self.capture_typed_text(&text),
            Win32Event::BackspaceRequested => {
                return self.capture_backspace();
            },
            Win32Event::PasteTextRequested => {
                if matches!(self.state, DictationState::Typing) {
                    push(&mut out, UiAction::ReadClipboardText);
                }
            },
            Win32Event::KeyboardCaptureFailed(error) => {
                if self.state.is_composing() {
                    out = self.cancel_operation();
                    push(
                        &mut out,
                        UiAction::Send(
                            Win32Command::ShowMessageBox {
                                title: "Ashe Worker".to_owned(),
                                text: error,
                            },
                        ),
                    );
                }
            },
            Win32Event::FixGrammarRequested { target_hwnd, x, y } => {
                return self.begin_text_action(TextActionKind::FixGrammar, target_hwnd, x, y);
            },
            Win32Event::AnswerQuestionRequested { target_hwnd, x, y } => {
                return self.begin_text_action(TextActionKind::AnswerQuestion, target_hwnd, x, y);
            },
            Win32Event::PasteImageRequested { target_hwnd } => {
                return self.begin_image_paste(target_hwnd);
            },
            Win32Event::ToggleVoiceRequested => {
                return self.toggle_voice();
            },
            Win32Event::PositionChanged { x, y } => push(&mut out, UiAction::AimOverlay { x, y }),
            Win32Event::ReloadConfigRequested => {
                return self.reload_config();
            },
            Win32Event::OpenLogRequested => push(&mut out, UiAction::OpenLog),
            Win32Event::CopyLogPathRequested => push(&mut out, UiAction::CopyLogPath),
            Win32Event::ToggleActivityRequested => push(&mut out, UiAction::ToggleActivity),
            Win32Event::OpenArtifactsRequested => push(&mut out, UiAction::OpenArtifacts),
            Win32Event::OpenJournalRequested => push(&mut out, UiAction::OpenJournal),
            Win32Event::AboutRequested => push(&mut out, UiAction::ShowAbout),
            Win32Event::QuitRequested => {
                return self.quit();
            },
            Win32Event::PasteCompleted(result) => {
                return self.finish_insert(result.is_ok());
            },
            Win32Event::PathPasteCompleted(_) => {
                self.paste_in_flight = false;
            },
            Win32Event::ServiceStopped => {},
        }
        assert(action_views(out@) =~= old(self)@.after(event, now).1);
        out
    }
}

/// At least two digits.
pub open spec fn two_digits(n: nat) -> Seq<char> {
    if n < 10 {
        seq!['0'] + decimal(n)
    } else {
        decimal(n)
    }
}

/// Minutes and seconds, behind hours where there are any.
pub open spec fn duration_text(seconds: nat) -> Seq<char> {
    let clock = two_digits(seconds / 60 % 60).push(':') + two_digits(seconds % 60);
    if seconds >= 3600 {
        decimal(seconds / 3600).push(':') + clock
    } else {
        clock
    }
}

fn extend_two_digits(out: &mut Vec<char>, n: u64)
    ensures
        final(out)@ == old(out)@ + two_digits(n as nat),
{
    if n < 10 {
        out.push('0');
    }
    extend(out, &to_decimal(n));
    assert(out@ =~= old(out)@ + two_digits(n as nat));
}

/// A recording time for the bar.
pub fn format_recording_duration(total_seconds: u64) -> (r: String)
    ensures
        r@ == duration_text(total_seconds as nat),
{
    let mut out: Vec<char> = Vec::new();
    if total_seconds >= 3600 {
        extend(&mut out, &to_decimal(total_seconds / 3600));
        out.push(':');
    }
    extend_two_digits(&mut out, total_seconds / 60 % 60);
    out.push(':');
    extend_two_digits(&mut out, total_seconds % 60);
    assert(out@ =~= duration_text(total_seconds as nat));
    string_of(&out)
}

/// What a `TopBarContent` says.
pub struct BarView {
    pub count: Seq<char>,
    pub content: Seq<char>,
    pub alignment: TopBarAlignment,
    pub accessory: Option<Seq<char>>,
}

pub open spec fn text_view(text: Option<String>) -> Option<Seq<char>> {
    match text {
        Some(text) => Some(text@),
        None => None,
    }
}

pub open spec fn bar_view(bar: Option<TopBarContent>) -> Option<BarView> {
    match bar {
        Some(bar) => Some(
            BarView {
                count: bar.count@,
                content: bar.content@,
                alignment: bar.alignment,
                accessory: text_view(bar.accessory),
            },
        ),
        None => None,
    }
}

/// What the overlay shows, but for its place and its spectrum.
pub struct OverlayContent {
    pub visible: bool,
    pub state: PillState,
    pub main_text: Option<String>,
    pub top_bar: Option<TopBarContent>,
    /// The compact pill with a single word, for text actions.
    pub mini: bool,
}

impl UiView {
    pub open spec fn pill(self) -> PillState {
        if self.failed {
            PillState::Error
        } else if self.state.composing() {
            PillState::Listening
        } else if self.state is Idle {
            PillState::Idle
        } else {
            PillState::Working
        }
    }

    /// The tail of what is being typed.
    pub open spec fn preview(self) -> Seq<char> {
        match self.session {
            Some(session) => preview_of(session.typing, TYPING_PREVIEW_CHARACTERS as int),
            None => Seq::empty(),
        }
    }

    /// The current pause has been found long.
    pub open spec fn silent(self) -> bool {
        self.heard matches Some(heard) && long_gap(heard.rate, heard.gap)
    }

    /// The middle of the bar: what is being typed, what is going on, or the
    /// recording time.
    pub open spec fn bar_text(self, now: u64) -> (Seq<char>, TopBarAlignment) {
        if self.state is Typing && self.preview().len() > 0 {
            (self.preview(), TopBarAlignment::Trailing)
        } else if self.state is Transcribing || self.state is Inserting {
            ("processing..."@, TopBarAlignment::Center)
        } else if self.state.hearing() && self.silent() {
            ("silence skipped"@, TopBarAlignment::Center)
        } else {
            (
                duration_text(self.recorded(now) as nat / 1_000_000_000),
                TopBarAlignment::Center,
            )
        }
    }

    /// The line-break mark shows.
    pub open spec fn marks_line_break(self, now: u64) -> bool {
        self.state.hearing() && (self.feedback_until matches Some(until) && now < until)
    }

    /// The bar, while a dictation has one.
    pub open spec fn bar(self, now: u64) -> Option<BarView> {
        if !self.bar_active {
            None
        } else {
            Some(
                BarView {
                    count: decimal(self.insertion_count) + " inserted"@,
                    content: self.bar_text(now).0,
                    alignment: self.bar_text(now).1,
                    accessory: if self.marks_line_break(now) {
                        Some(LINE_BREAK_SYMBOL@)
                    } else {
                        None
                    },
                },
            )
        }
    }
}

impl UiApp {
    pub fn pill_state(&self) -> (r: PillState)
        ensures
            r == self@.pill(),
    {
        if self.failed {
            return PillState::Error;
        }
        match self.state {
            DictationState::Starting | DictationState::Listening | DictationState::Typing =>
                PillState::Listening,
            DictationState::Transcribing
            | DictationState::Inserting
            | DictationState::FixingGrammar
            | DictationState::AnsweringQuestion => PillState::Working,
            DictationState::Idle => PillState::Idle,
        }
    }

    fn bar_content(&self, now: u64) -> (r: (String, TopBarAlignment))
        requires
            self.wf(),
        ensures
            r.0@ == self@.bar_text(now).0,
            r.1 == self@.bar_text(now).1,
    {
        let preview: String = match &self.session {
            Some(session) => session.typing_preview_tail(TYPING_PREVIEW_CHARACTERS),
            None => String::new(),
        };
        if matches!(self.state, DictationState::Typing) && chars_of(&preview).len() > 0 {
            return (preview, TopBarAlignment::Trailing);
        }
        if matches!(self.state, DictationState::Transcribing | DictationState::Inserting) {
            return ("processing...".to_owned(), TopBarAlignment::Center);
        }
        let silent: bool = match &self.current_audio {
            Some(compactor) => compactor.silence_truncated(),
            None => false,
        };
        if self.state.is_hearing() && silent {
            return ("silence skipped".to_owned(), TopBarAlignment::Center);
        }
        let seconds: u64 = self.recording_duration(now) / 1_000_000_000;
        (format_recording_duration(seconds), TopBarAlignment::Center)
    }

    pub fn top_bar_content(&self, now: u64) -> (r: Option<TopBarContent>)
        requires
            self.wf(),
        ensures
            bar_view(r) == self@.bar(now),
    {
        if !self.dictation_bar_active {
            return None;
        }
        let (content, alignment) = self.bar_content(now);
        let mut count: Vec<char> = to_decimal(self.dictation_insertion_count as u64);
        extend(&mut count, &chars_of(" inserted"));
        let accessory: Option<String> = match self.line_break_feedback_until {
            Some(until) => if self.state.is_hearing() && now < until {
                Some(LINE_BREAK_SYMBOL.to_owned())
            } else {
                None
            },
            None => None,
        };
        Some(TopBarContent { count: string_of(&count), content, alignment, accessory })
    }

    /// What `SyncOverlay` hands to the window service.
    pub fn overlay_content(&self, now: u64) -> (r: OverlayContent)
        requires
            self.wf(),
        ensures
            r.visible == self@.visible,
            r.state == self@.pill(),
            text_view(r.main_text) == if self@.state.asking() {
                Some("processing"@)
            } else {
                None
            },
            bar_view(r.top_bar) == self@.bar(now),
            r.mini == self@.state.asking(),
    {
        let mini: bool = self.state.is_asking();
        OverlayContent {
            visible: self.visible,
            state: self.pill_state(),
            main_text: if mini {
                Some("processing".to_owned())
            } else {
                None
            },
            top_bar: self.top_bar_content(now),
            mini,
        }
    }

    /// Tell the service of activity tracking, when something has changed.
    pub fn note_activity(&mut self, running: bool, current_frames: u64, summary: &str) -> (r: Vec<
        UiAction,
    >)
        requires
            old(self).wf(),
        ensures
            final(self).wf(),
            ({
                let key = activity_key(running, current_frames as nat, summary@);
                &&& final(self)@ == (UiView { activity_key: key, ..old(self)@ })
                &&& action_views(r@) == if key == old(self)@.activity_key {
                    Seq::empty()
                } else {
                    seq![
                        ActionView::Send(
                            CommandView::SetActivityStatus { running, status: summary@ },
                        ),
                    ]
                }
            }),
    {
        let mut key: Vec<char> = if running {
            chars_of("true")
        } else {
            chars_of("false")
        };
        key.push(':');
        extend(&mut key, &to_decimal(current_frames));
        key.push(':');
        extend(&mut key, &chars_of(summary));
        assert(key@ =~= activity_key(running, current_frames as nat, summary@));
        let mut out: Vec<UiAction> = Vec::new();
        let key: String = string_of(&key);
        if !same_text(&key, &self.last_activity_status) {
            self.last_activity_status = key;
            push(
                &mut out,
                UiAction::Send(
                    Win32Command::SetActivityStatus { running, status: summary.to_owned() },
                ),
            );
        }
        proof {
            let sent = ActionView::Send(
                CommandView::SetActivityStatus { running, status: summary@ },
            );
            assert(key@ != old(self)@.activity_key ==> action_views(out@) =~= seq![sent]);
            assert(key@ == old(self)@.activity_key ==> action_views(out@) =~= Seq::empty());
        }
        out
    }

    /// The text of the about box.
    pub fn about_text(&self, version: &str, build: &str, activity: &str, artifacts: &str) -> (r:
        String)
        ensures
            r@ == about(version@, build@, activity@, artifacts@, summary_of(self@.config)),
    {
        let mut out: Vec<char> = chars_of("Ashe Worker\r\nVersion: ");
        extend(&mut out, &chars_of(version));
        extend(&mut out, &chars_of("\r\nBuild: "));
        extend(&mut out, &chars_of(build));
        extend(&mut out, &chars_of(ABOUT_HOTKEYS));
        extend(&mut out, &chars_of("\r\nActivity tracking: "));
        extend(&mut out, &chars_of(activity));
        extend(&mut out, &chars_of("\r\nArtifacts: "));
        extend(&mut out, &chars_of(artifacts));
        extend(&mut out, &chars_of("\r\nConfig: "));
        extend(&mut out, &chars_of(&self.config.log_summary()));
        string_of(&out)
    }
}

/// What tells one report of activity tracking from another.
pub open spec fn activity_key(running: bool, frames: nat, summary: Seq<char>) -> Seq<char> {
    truth(running).push(':') + decimal(frames).push(':') + summary
}

/// The hotkeys in the about box.
pub const ABOUT_HOTKEYS: &'static str = "\r\n\r\nDictate: Win+Shift+H\r\nVoice: Win+Shift+A\r\nGrammar: Win+Shift+G\r\nQuestion: Win+Shift+Q\r\nImage path: Ctrl+Alt+V";

pub open spec fn about(
    version: Seq<char>,
    build: Seq<char>,
    activity: Seq<char>,
    artifacts: Seq<char>,
    summary: Seq<char>,
) -> Seq<char> {
    "Ashe Worker\r\nVersion: "@ + version + "\r\nBuild: "@ + build + ABOUT_HOTKEYS@
        + "\r\nActivity tracking: "@ + activity + "\r\nArtifacts: "@ + artifacts
        + "\r\nConfig: "@ + summary
}

/// Slots that the given transcripts fill, in order.
pub open spec fn filled(
    slots: Seq<Option<TranscriptView>>,
    transcripts: Seq<TranscriptView>,
) -> Seq<Option<TranscriptView>> {
    Seq::new(
        slots.len(),
        |i: int|
            if i < transcripts.len() {
                Some(transcripts[i])
            } else {
                slots[i]
            },
    )
}

pub open spec fn transcript_views(transcripts: Seq<Transcript>) -> Seq<TranscriptView> {
    transcripts.map_values(|t: Transcript| t@)
}

/// The text of a session, given one transcript for each of its segments.
pub fn compose(session: CompositionSession, transcripts: Vec<Transcript>) -> (r: Result<
    String,
    AssembleError,
>)
    requires
        session.wf(),
    ensures
        ({
            let outcome = FinalView {
                target: session@.target,
                entries: session@.entries,
                speech_count: speech_entries(session@.entries),
                transcripts: filled(session@.transcripts, transcript_views(transcripts@)),
            }.outcome();
            match r {
                Ok(text) => outcome == Ok::<Seq<char>, AssembleError>(text@),
                Err(e) => outcome == Err::<Seq<char>, AssembleError>(e),
            }
        }),
{
    let ghost slots = session@.transcripts;
    let ghost views = transcript_views(transcripts@);
    let ghost start = session@;
    let mut session: CompositionSession = session;
    let mut transcripts: Vec<Transcript> = transcripts;
    while transcripts.len() > 0
        invariant
            session.wf(),
            views == transcript_views(transcripts@) + views.skip(transcripts@.len() as int),
            transcripts@.len() <= views.len(),
            session@ == (SessionView { transcripts: session@.transcripts, ..start }),
            session@.transcripts.len() == slots.len(),
            forall|i: int|
                0 <= i < slots.len() ==> #[trigger] session@.transcripts[i] == if i
                    >= transcripts@.len() && i < views.len() {
                    Some(views[i])
                } else {
                    slots[i]
                },
        decreases transcripts@.len(),
    {
        let ghost before = transcripts@;
        if let Some(transcript) = transcripts.pop() {
            let index: usize = transcripts.len();
            assert(views[index as int] == transcript_views(before)[index as int]);
            assert(transcript_views(transcripts@) =~= transcript_views(before).drop_last());
            session.set_speech_transcript(index, transcript);
            assert(views =~= transcript_views(transcripts@) + views.skip(index as int));
        }
    }
    assert(session@.transcripts =~= filled(slots, views));
    session.finish().assemble()
}

/// Anything that the application can be told.
pub enum UiInput {
    Event { event: Win32Event, now: u64 },
    AudioStarted { purpose: CapturePurpose, rate: Result<u32, Seq<char>>, now: u64 },
    Pump { now: u64 },
    Pasted(Option<Seq<char>>),
    Transcribed { target_hwnd: isize, result: Result<Seq<char>, Seq<char>> },
    Selection {
        kind: TextActionKind,
        target_hwnd: isize,
        x: i32,
        y: i32,
        selection: Result<Option<Seq<char>>, Seq<char>>,
    },
    Answered(Result<Seq<char>, Seq<char>>),
    ImageRead { target_hwnd: isize, ok: bool },
    ImageUploaded { target_hwnd: isize, result: Result<Seq<char>, Seq<char>> },
    VoiceBegun(bool),
    VoiceReported(VoiceEvent),
}

impl UiView {
    /// What an input does.
    pub open spec fn taking(self, input: UiInput) -> UiStep {
        match input {
            UiInput::Event { event, now } => self.after(event, now),
            UiInput::AudioStarted { purpose, rate, now } => match rate {
                Ok(rate) => self.capturing(purpose, rate, now),
                Err(error) => self.not_capturing(purpose, error, now),
            },
            UiInput::Pump { now } => self.pumped(now),
            UiInput::Pasted(text) => (self.pasted(text), Seq::empty()),
            UiInput::Transcribed { target_hwnd, result } => self.transcribed(target_hwnd, result),
            UiInput::Selection { kind, target_hwnd, x, y, selection } => self.action_begun(
                kind,
                target_hwnd,
                x,
                y,
                selection,
            ),
            UiInput::Answered(result) => self.action_answered(result),
            UiInput::ImageRead { target_hwnd, ok } => self.image_read(target_hwnd, ok),
            UiInput::ImageUploaded { target_hwnd, result } => self.image_uploaded(
                target_hwnd,
                result,
            ),
            UiInput::VoiceBegun(ok) => self.voice_begun(ok),
            UiInput::VoiceReported(event) => self.voice_reported(event),
        }
    }
}

/// Keyboard capture ends.
pub open spec fn releases(actions: Seq<ActionView>) -> bool {
    actions.contains(keyboard_capture(false))
}

proof fn releases_joins(a: Seq<ActionView>, b: Seq<ActionView>)
    ensures
        releases(a) || releases(b) ==> releases(a + b),
{
    let goal = keyboard_capture(false);
    if releases(a) {
        let i = choose|i: int| 0 <= i < a.len() && a[i] == goal;
        assert((a + b)[i] == goal);
    } else if releases(b) {
        let i = choose|i: int| 0 <= i < b.len() && b[i] == goal;
        assert((a + b)[a.len() + i] == goal);
    }
}

proof fn hiding_releases(v: UiView, lead: Seq<ActionView>)
    ensures
        releases(v.hidden().1),
        releases(lead + v.hidden().1),
        releases(v.without_transcript().1),
        releases(lead + v.without_transcript().1),
{
    assert(v.hidden().1[1] == keyboard_capture(false));
    releases_joins(lead, v.hidden().1);
    releases_joins(seq![tooltip("Ashe Worker - Idle - Win+Shift+H"@)], v.hidden().1);
    releases_joins(lead, v.without_transcript().1);
}

proof fn stopping_releases(v: UiView, now: u64)
    ensures
        v.state.composing() ==> releases(v.stopped(now).1),
{
    if v.state.composing() {
        let (view, actions) = v.sealed(now);
        let lead = actions.push(keyboard_capture(false));
        assert(lead.last() == keyboard_capture(false));
        assert(lead[actions.len() as int] == keyboard_capture(false));
        let all = v.stopped(now).1;
        let rest = all.skip(lead.len() as int);
        assert(all =~= lead + rest);
        releases_joins(lead, rest);
    }
}

/// Teardown ends keyboard capture on every exit path: whatever brings the
/// application back to idle also releases the keyboard.
pub proof fn teardown_releases_the_keyboard(v: UiView, input: UiInput)
    requires
        !(v.state is Idle),
        v.taking(input).0.state is Idle,
    ensures
        releases(v.taking(input).1),
{
    let actions = v.taking(input).1;
    match input {
        UiInput::Event { event, now } => {
            stopping_releases(v, now);
            match event {
                Win32Event::CancelRequested | Win32Event::KeyboardCaptureFailed(_) => {
                    let lead = v.capture_stopped().1;
                    assert(v.cancelled().1[lead.len() as int + 1] == keyboard_capture(false));
                    assert(actions[lead.len() as int + 1] == keyboard_capture(false));
                },
                Win32Event::PasteCompleted(result) => {
                    let w = UiView { failed: true, ..v };
                    hiding_releases(v, seq![tooltip("Ashe Worker - Inserted - Win+Shift+H"@)]);
                    hiding_releases(w, seq![tooltip("Ashe Worker - Paste error - Win+Shift+H"@)]);
                },
                _ => {},
            }
        },
        UiInput::AudioStarted { purpose, rate, now } => {
            if let Err(error) = rate {
                match purpose {
                    CapturePurpose::Start => {
                        hiding_releases(v, Seq::empty());
                        let tail = seq![message_box("Audio capture failed: "@ + error)];
                        releases_joins(v.without_transcript().1, tail);
                        assert(actions =~= v.without_transcript().1 + tail);
                    },
                    CapturePurpose::Resume => {
                        stopping_releases(v, now);
                        releases_joins(
                            seq![message_box("Could not resume audio capture: "@ + error)],
                            v.stopped(now).1,
                        );
                    },
                }
            }
        },
        UiInput::Pump { now } => {
            stopping_releases(v, now);
        },
        UiInput::Transcribed { target_hwnd, result } => {
            let w = UiView { failed: true, ..v };
            hiding_releases(v, Seq::empty());
            hiding_releases(
                w,
                seq![tooltip("Ashe Worker - Transcription error - Win+Shift+H"@)],
            );
        },
        UiInput::Answered(result) => {
            let w = UiView { failed: true, ..v };
            hiding_releases(v, seq![tooltip("Ashe Worker - Empty result - Win+Shift+H"@)]);
            hiding_releases(w, seq![tooltip("Ashe Worker - LLM error - Win+Shift+H"@)]);
        },
        _ => {},
    }
}

/// The action writes text into another application.
pub open spec fn is_write(action: ActionView) -> bool {
    action matches ActionView::Send(command) && (command is PasteText || command is InjectText)
}

/// How many of the actions write text into another application.
pub open spec fn write_count(actions: Seq<ActionView>) -> nat
    decreases actions.len(),
{
    if actions.len() == 0 {
        0
    } else {
        write_count(actions.drop_last()) + if is_write(actions.last()) {
            1nat
        } else {
            0
        }
    }
}

proof fn write_counts_join(a: Seq<ActionView>, b: Seq<ActionView>)
    ensures
        write_count(a + b) == write_count(a) + write_count(b),
    decreases b.len(),
{
    if b.len() == 0 {
        assert(a + b =~= a);
    } else {
        assert((a + b).drop_last() =~= a + b.drop_last());
        assert((a + b).last() == b.last());
        write_counts_join(a, b.drop_last());
    }
}

proof fn no_writes(actions: Seq<ActionView>)
    requires
        forall|i: int| 0 <= i < actions.len() ==> !is_write(#[trigger] actions[i]),
    ensures
        write_count(actions) == 0,
    decreases actions.len(),
{
    if actions.len() > 0 {
        no_writes(actions.drop_last());
    }
}

proof fn hiding_writes_nothing(v: UiView)
    ensures
        write_count(v.hidden().1) == 0,
        write_count(v.without_transcript().1) == 0,
{
    no_writes(v.hidden().1);
    no_writes(v.without_transcript().1);
}

proof fn inserting_writes_once(v: UiView, target_hwnd: isize, text: Seq<char>)
    ensures
        write_count(v.inserting(target_hwnd, text).1) == if text.len() == 0 {
            0nat
        } else {
            1
        },
{
    hiding_writes_nothing(v);
    if text.len() > 0 {
        let only = v.inserting(target_hwnd, text).1;
        no_writes(only.drop_last());
    }
}

proof fn stopping_writes_at_most_once(v: UiView, now: u64)
    ensures
        write_count(v.stopped(now).1) == if v.state.composing() && v.stopped(
            now,
        ).0.state is Inserting {
            1nat
        } else {
            0
        },
{
    if !v.state.composing() {
        no_writes(v.stopped(now).1);
    } else {
        let (view, actions) = v.sealed(now);
        let lead = actions.push(keyboard_capture(false));
        no_writes(lead);
        match view.session {
            None => {
                hiding_writes_nothing(view);
                write_counts_join(lead, view.without_transcript().1);
            },
            Some(open) => {
                let session = if v.state is Typing {
                    committed(open)
                } else {
                    open
                };
                let after = UiView {
                    session: None,
                    segments: Seq::empty(),
                    insertion_count: insertions(session),
                    ..view
                };
                let text = assembled(session.entries, Seq::empty());
                if speech_entries(session.entries) == 0 {
                    inserting_writes_once(after, session.target, text);
                    write_counts_join(lead, after.inserting(session.target, text).1);
                } else {
                    no_writes(v.stopped(now).1);
                }
            },
        }
    }
}

/// How often a step may write: once on the way into inserting.
pub open spec fn writes_due(before: UiView, after: UiView) -> nat {
    if !(before.state is Inserting) && after.state is Inserting {
        1
    } else {
        0
    }
}

proof fn ending_writes_nothing(v: UiView, ok: bool, error: Seq<char>)
    ensures
        write_count(v.cancelled().1) == 0,
        write_count(v.cancelled().1.push(message_box(error))) == 0,
        write_count(v.inserted(ok).1) == 0,
        write_count(v.quitted().1) == 0,
{
    no_writes(v.cancelled().1);
    no_writes(v.cancelled().1.push(message_box(error)));
    no_writes(v.inserted(ok).1);
    no_writes(v.quitted().1);
}

proof fn beginning_writes_nothing(v: UiView, target_hwnd: isize, x: i32, y: i32, now: u64)
    ensures
        write_count(v.begun(target_hwnd, x, y).1) == 0,
        write_count(v.typing_begun(now).1) == 0,
        write_count(seq![ActionView::StartAudio(CapturePurpose::Resume)]) == 0,
{
    no_writes(v.begun(target_hwnd, x, y).1);
    no_writes(v.typing_begun(now).1);
    no_writes(seq![ActionView::StartAudio(CapturePurpose::Resume)]);
}

proof fn requests_write_nothing(v: UiView, event: Win32Event, now: u64)
    requires
        v.after(event, now).1.len() <= 2,
        !(event is ToggleRequested || event is SubmitRequested),
    ensures
        write_count(v.after(event, now).1) == 0,
{
    no_writes(v.after(event, now).1);
}

proof fn events_write_the_result(v: UiView, event: Win32Event, now: u64)
    ensures
        write_count(v.after(event, now).1) == writes_due(v, v.after(event, now).0),
{
    match event {
        Win32Event::ToggleRequested { target_hwnd, x, y } => {
            stopping_writes_at_most_once(v, now);
            beginning_writes_nothing(v, target_hwnd, x, y, now);
        },
        Win32Event::SubmitRequested => {
            stopping_writes_at_most_once(v, now);
            beginning_writes_nothing(v, 0, 0, 0, now);
        },
        Win32Event::TypingStarted => {
            beginning_writes_nothing(v, 0, 0, 0, now);
        },
        Win32Event::KeyboardCaptureFailed(error) => {
            ending_writes_nothing(v, true, error@);
        },
        Win32Event::CancelRequested | Win32Event::QuitRequested => {
            ending_writes_nothing(v, true, Seq::empty());
        },
        Win32Event::PasteCompleted(result) => {
            ending_writes_nothing(v, result is Ok, Seq::empty());
        },
        _ => {
            requests_write_nothing(v, event, now);
        },
    }
}

proof fn answers_write_the_result(v: UiView, result: Result<Seq<char>, Seq<char>>)
    ensures
        write_count(v.action_answered(result).1) == writes_due(v, v.action_answered(result).0),
{
    let (after, actions) = v.action_answered(result);
    if v.state.asking() && after.state is Inserting {
        no_writes(actions.drop_last());
    } else {
        no_writes(actions);
    }
}

/// Nothing but the finished text is ever written into another application:
/// an input writes exactly when it takes the application into inserting, and
/// then once.
pub proof fn only_the_result_is_written(v: UiView, input: UiInput)
    ensures
        write_count(v.taking(input).1) == writes_due(v, v.taking(input).0),
{
    no_writes(Seq::empty());
    match input {
        UiInput::Event { event, now } => {
            events_write_the_result(v, event, now);
        },
        UiInput::AudioStarted { purpose, rate, now } => match (purpose, rate) {
            (CapturePurpose::Resume, Err(error)) => {
                let lead = seq![message_box("Could not resume audio capture: "@ + error)];
                stopping_writes_at_most_once(v, now);
                no_writes(lead);
                write_counts_join(lead, v.stopped(now).1);
            },
            _ => {
                no_writes(v.taking(input).1);
            },
        },
        UiInput::Pump { now } => {
            stopping_writes_at_most_once(v, now);
        },
        UiInput::Transcribed { target_hwnd, result } => match result {
            Ok(text) => {
                inserting_writes_once(UiView { failed: false, ..v }, target_hwnd, text);
                hiding_writes_nothing(v);
            },
            Err(_) => {
                no_writes(v.transcribed(target_hwnd, result).1);
            },
        },
        UiInput::Answered(result) => {
            answers_write_the_result(v, result);
        },
        UiInput::Pasted(_) => {},
        _ => {
            no_writes(v.taking(input).1);
        },
    }
}

/// Cancelling keeps nothing: no audio, no text, no request, no overlay.
pub proof fn cancelling_keeps_nothing(v: UiView)
    requires
        !(v.state is Idle),
    ensures
        ({
            let w = v.cancelled().0;
            &&& w.state is Idle
            &&& w.session is None
            &&& w.segments.len() == 0
            &&& w.heard is None
            &&& w.capture is None
            &&& w.text_action is None
            &&& !w.visible
            &&& !w.bar_active
        }),
        v.capture is Some ==> v.cancelled().1.contains(ActionView::StopAudio),
{
    if v.capture is Some {
        assert(v.cancelled().1[0] == ActionView::StopAudio);
    }
}

/// What was cancelled stays cancelled: a transcript or an answer that arrives
/// later changes nothing.
pub proof fn late_results_change_nothing(
    v: UiView,
    target_hwnd: isize,
    result: Result<Seq<char>, Seq<char>>,
)
    requires
        !(v.state is Idle),
    ensures
        v.cancelled().0.transcribed(target_hwnd, result) == (
            v.cancelled().0,
            Seq::<ActionView>::empty(),
        ),
        v.cancelled().0.action_answered(result) == (v.cancelled().0, Seq::<ActionView>::empty()),
{
}

/// Dictation and voice exclude each other: neither starts while the other
/// runs.
pub proof fn dictation_and_voice_exclude_each_other(
    v: UiView,
    target_hwnd: isize,
    x: i32,
    y: i32,
    now: u64,
)
    ensures
        v.voice ==> v.toggled(target_hwnd, x, y, now) == (v, Seq::<ActionView>::empty()),
        !v.voice && !(v.state is Idle) ==> v.voice_toggled() == (v, Seq::<ActionView>::empty()),
{
}

/// While listening, a line break shows for one and a half seconds.
pub proof fn line_breaks_show_for_a_while(v: UiView, at: u64, now: u64)
    requires
        v.state.hearing(),
        v.session is Some,
        at + 1_500_000_000 <= u64::MAX,
    ensures
        v.line_broken(at).marks_line_break(now) <==> now < at + 1_500_000_000,
{
}

/// One Backspace takes back a typed line break, a typed character or a paste,
/// and leaves what was typed before it.
pub proof fn backspace_takes_one_back(v: UiView, c: char, text: Seq<char>, now: u64)
    requires
        v.state is Typing,
        v.session is Some,
    ensures
        v.line_broken(now).backspaced().0 == v,
        !control(c) ==> v.typed(seq![c]).backspaced().0 == v,
        text.len() > 0 ==> v.pasted(Some(text)).backspaced().0 == v,
{
    let typing = v.session->0.typing;
    assert(typing.push(AtomView::LineBreak).drop_last() =~= typing);
    assert(typing.push(AtomView::Paste(text)).drop_last() =~= typing);
    assert(typed_atoms(seq![c]) =~= if control(c) {
        Seq::empty()
    } else {
        seq![AtomView::Character(c)]
    }) by {
        reveal_with_fuel(typed_atoms, 2);
    }
    assert(!control(c) ==> (typing + typed_atoms(seq![c])).drop_last() =~= typing);
}

/// Enter commits what was typed, exactly and once, and the microphone
/// resumes; with nothing typed it ends the session.
pub proof fn enter_commits_or_finishes(v: UiView, rate: u32, now: u64)
    requires
        v.state is Typing,
        v.session is Some,
    ensures
        v.session->0.typing.len() == 0 ==> v.submitted(now) == v.stopped(now),
        v.session->0.typing.len() > 0 ==> ({
            let (w, actions) = v.submitted(now);
            let resumed = w.capturing(CapturePurpose::Resume, rate, now).0;
            &&& actions == seq![ActionView::StartAudio(CapturePurpose::Resume)]
            &&& resumed.state is Listening
            &&& resumed.session == Some(
                SessionView {
                    entries: v.session->0.entries.push(
                        EntryView::Insertion(actual_text(v.session->0.typing)),
                    ),
                    typing: Seq::empty(),
                    ..v.session->0
                },
            )
            &&& resumed.insertion_count == insertions(v.session->0) + 1
        }),
{
    let entries = v.session->0.entries;
    let added = EntryView::Insertion(actual_text(v.session->0.typing));
    assert(entries.push(added).drop_last() =~= entries);
    speech_is_among_the_entries(entries);
}

proof fn speech_is_among_the_entries(entries: Seq<EntryView>)
    ensures
        speech_entries(entries) <= entries.len(),
    decreases entries.len(),
{
    if entries.len() > 0 {
        speech_is_among_the_entries(entries.drop_last());
    }
}

/// A session's text goes where the session began, and waits for transcripts
/// of exactly the audio that the session holds.
pub proof fn stopped_sessions_keep_their_target(v: UiView, now: u64, i: int)
    requires
        v.fits(),
        v.state.composing(),
        v.session is Some,
        0 <= i < v.stopped(now).1.len(),
    ensures
        match v.stopped(now).1[i] {
            ActionView::Send(CommandView::PasteText { target_hwnd, .. }) => target_hwnd
                == v.session->0.target,
            ActionView::Transcribe { session, segments } => {
                &&& session.target == v.session->0.target
                &&& segments_fit(session, segments)
            },
            _ => true,
        },
{
    let (view, actions) = v.sealed(now);
    segments_keep_fitting(v.timer_stopped(now).capture_stopped().0);
    assert(view.fits());
}

proof fn segments_keep_fitting(v: UiView)
    requires
        v.fits(),
    ensures
        v.segment_committed().fits(),
{
    if v.segment_committed().segments != v.segments {
        assert(v.segment_committed().segments.drop_last() =~= v.segments);
    }
}

/// Typing loses no speech: what the running segment has heard becomes the next
/// segment of the session, behind everything that the session held before, and
/// the microphone stops.
pub proof fn typing_keeps_heard_speech(v: UiView, now: u64)
    requires
        v.state.hearing(),
    ensures
        ({
            let (w, actions) = v.typing_begun(now);
            &&& w.state is Typing
            &&& w.heard is None
            &&& w.capture is None
            &&& v.capture is Some ==> actions.contains(ActionView::StopAudio)
            &&& actions.contains(ActionView::ResetSpectrum)
            &&& w.session is Some == v.session is Some
            &&& (v.session is Some && v.heard is Some) ==> {
                let heard = v.heard->0;
                let old_session = v.session->0;
                let session = w.session->0;
                let speaks = heard.has_speech && heard.audio().len() > 0 && old_session.rate > 0;
                &&& session.target == old_session.target
                &&& session.typing == old_session.typing
                &&& speaks ==> w.segments == v.segments.push(heard.audio())
                &&& speaks ==> session.entries == old_session.entries.push(EntryView::Speech)
                &&& speaks ==> session.audio == old_session.audio + heard.audio()
                &&& speaks ==> session.transcripts == old_session.transcripts.push(None)
                &&& !speaks ==> w.segments == v.segments && session == old_session
            }
        }),
{
    let (w, actions) = v.typing_begun(now);
    let lead = v.capture_stopped().1;
    assert(actions[lead.len() as int] == ActionView::ResetSpectrum);
    if v.capture is Some {
        assert(actions[0] == ActionView::StopAudio);
    }
}

/// The inputs that throw the running segment away: a cancel, a keyboard that
/// cannot be captured, a microphone that starts anew, and the end of an
/// insertion.
pub open spec fn drops_speech(input: UiInput) -> bool {
    match input {
        UiInput::Event { event, .. } => event is CancelRequested || event is KeyboardCaptureFailed
            || event is PasteCompleted,
        UiInput::AudioStarted { .. } => true,
        _ => false,
    }
}

/// The segments of a session with the running one behind them.
pub open spec fn all_speech(v: UiView) -> Seq<Seq<u8>> {
    match v.heard {
        Some(heard) => if heard.has_speech && heard.audio().len() > 0 {
            v.segments.push(heard.audio())
        } else {
            v.segments
        },
        None => v.segments,
    }
}

/// No input but those that throw the running segment away loses heard speech:
/// the session keeps it, as the running segment or as its last one, or hands
/// all of it to be transcribed, unless nothing has been said at all.
pub proof fn heard_speech_is_never_lost(v: UiView, input: UiInput)
    requires
        v.state.hearing(),
        v.session is Some,
        v.session->0.rate > 0,
        !drops_speech(input),
    ensures
        ({
            let (w, actions) = v.taking(input);
            ||| w.session is Some && all_speech(w) == all_speech(v)
            ||| w.state is Transcribing && exists|i: int|
                0 <= i < actions.len() && ((#[trigger] actions[i]) matches ActionView::Transcribe {
                    segments,
                    ..
                } && segments == all_speech(v))
            ||| all_speech(v) == v.segments && speech_entries(v.session->0.entries) == 0
        }),
{
    let (w, actions) = v.taking(input);
    let now = match input {
        UiInput::Event { now, .. } => now,
        UiInput::Pump { now } => now,
        _ => 0,
    };
    stopping_hands_speech_over(v, now);
}

proof fn stopping_hands_speech_over(v: UiView, now: u64)
    requires
        v.state.hearing(),
        v.session is Some,
        v.session->0.rate > 0,
    ensures
        ({
            let (w, actions) = v.stopped(now);
            let entries = v.session->0.entries;
            let speaks = all_speech(v) != v.segments;
            &&& speech_entries(entries) > 0 || speaks ==> {
                &&& w.state is Transcribing
                &&& actions.last() matches ActionView::Transcribe { segments, .. } && segments
                    == all_speech(v)
                &&& actions[actions.len() - 1] == actions.last()
                &&& actions.len() > 0
            }
            &&& !speaks ==> all_speech(v) == v.segments
        }),
{
    let entries = v.session->0.entries;
    let (view, _) = v.sealed(now);
    if let Some(heard) = v.heard {
        assert(entries.push(EntryView::Speech).drop_last() =~= entries);
        if heard.has_speech && heard.audio().len() > 0 {
            assert(v.segments.push(heard.audio()).len() == v.segments.len() + 1);
        }
    }
}

/// The language model is asked for what the user asked for: of a captured
/// selection exactly one request goes out, with the kind that was requested
/// and exactly the selected text, and it is the text action then in flight,
/// for the window that it was requested in. Without a selected text none goes
/// out and nothing changes.
pub proof fn requests_say_what_was_asked(
    v: UiView,
    kind: TextActionKind,
    target_hwnd: isize,
    x: i32,
    y: i32,
    selection: Result<Option<Seq<char>>, Seq<char>>,
    i: int,
)
    requires
        0 <= i < v.action_begun(kind, target_hwnd, x, y, selection).1.len(),
    ensures
        ({
            let (w, actions) = v.action_begun(kind, target_hwnd, x, y, selection);
            &&& actions[i] matches ActionView::RunTextAction { kind: k, text } ==> {
                &&& k == kind
                &&& selection matches Ok(Some(selected)) && text == selected
                &&& i == actions.len() - 1
            }
            &&& selection matches Ok(Some(_)) ==> {
                &&& actions.last() is RunTextAction
                &&& w.text_action matches Some(action) && action.kind == kind && action.target_hwnd
                    == target_hwnd
                &&& w.state.asking()
                &&& (w.state is FixingGrammar) == (kind is FixGrammar)
                &&& (w.state is AnsweringQuestion) == (kind is AnswerQuestion)
                &&& w.visible && !w.failed
                &&& w.session == v.session && w.heard == v.heard
                &&& actions.contains(ActionView::Send(CommandView::SetEscapeCapture(true)))
                &&& actions.contains(ActionView::Send(CommandView::SetFollowCursor(true)))
                &&& actions.contains(ActionView::PlaceOverlay { x, y })
            }
            &&& !(selection matches Ok(Some(_))) ==> w == v
        }),
{
    let (w, actions) = v.action_begun(kind, target_hwnd, x, y, selection);
    if let Ok(Some(_)) = selection {
        assert(actions[0] == ActionView::PlaceOverlay { x, y });
        assert(actions[2] == ActionView::Send(CommandView::SetFollowCursor(true)));
        assert(actions[3] == ActionView::Send(CommandView::SetEscapeCapture(true)));
    }
}

/// A text action begins by reading the selection of the window it was asked
/// for in, for the kind that its hotkey stands for, and only while nothing
/// else is going on.
pub proof fn text_actions_read_the_selection(
    v: UiView,
    target_hwnd: isize,
    x: i32,
    y: i32,
    now: u64,
)
    ensures
        ({
            let grammar = v.after(Win32Event::FixGrammarRequested { target_hwnd, x, y }, now);
            let question = v.after(Win32Event::AnswerQuestionRequested { target_hwnd, x, y }, now);
            &&& grammar.0 == v && question.0 == v
            &&& !(v.state is Idle) ==> grammar.1.len() == 0 && question.1.len() == 0
            &&& v.state is Idle && feature_problem(v.config, Feature::Grammar) is None
                ==> grammar.1 == seq![
                ActionView::ReadSelection { kind: TextActionKind::FixGrammar, target_hwnd, x, y },
            ]
            &&& v.state is Idle && feature_problem(v.config, Feature::Question) is None
                ==> question.1 == seq![
                ActionView::ReadSelection {
                    kind: TextActionKind::AnswerQuestion,
                    target_hwnd,
                    x,
                    y,
                },
            ]
            &&& forall|i: int|
                0 <= i < grammar.1.len() && (#[trigger] grammar.1[i]) is ReadSelection
                    ==> feature_problem(v.config, Feature::Grammar) is None
            &&& forall|i: int|
                0 <= i < question.1.len() && (#[trigger] question.1[i]) is ReadSelection
                    ==> feature_problem(v.config, Feature::Question) is None
        }),
{
}

/// A corrected text takes the place of the selection; an answer goes behind
/// it, after an empty line. Both reach the window that was asked for in, and
/// only an answer that is not blank is written.
pub proof fn answers_reach_the_asking_window(v: UiView, text: Seq<char>)
    requires
        v.state.asking(),
        v.text_action is Some,
    ensures
        ({
            let action = v.text_action->0;
            let (w, actions) = v.action_answered(Ok(text));
            &&& trimmed(text).len() == 0 ==> w.state is Idle && write_count(actions) == 0
            &&& trimmed(text).len() > 0 ==> {
                &&& w.state is Inserting
                &&& w.text_action == v.text_action
                &&& actions.len() == 2
                &&& actions[0] == ActionView::Send(CommandView::SetKeyboardCapture(false))
                &&& actions[1] matches ActionView::Send(command) && (command matches
                    CommandView::InjectText { target_hwnd, text: written, append_after_selection }
                    && {
                    &&& target_hwnd == action.target_hwnd
                    &&& append_after_selection == (action.kind is AnswerQuestion)
                    &&& action.kind is FixGrammar ==> written == text
                    &&& action.kind is AnswerQuestion ==> written == seq!['\n', '\n'] + text
                })
            }
        }),
{
    reveal_strlit("\n\n");
    assert("\n\n"@ =~= seq!['\n', '\n']);
    if trimmed(text).len() == 0 {
        only_the_result_is_written(v, UiInput::Answered(Ok(text)));
    }
}

/// A finished transcription is pasted as it is, once, into the window of its
/// session; an empty one ends the session, and a failed one shows as failed.
pub proof fn transcripts_are_pasted_as_they_are(
    v: UiView,
    target_hwnd: isize,
    text: Seq<char>,
    error: Seq<char>,
)
    requires
        v.state is Transcribing,
    ensures
        text.len() > 0 ==> {
            let (w, actions) = v.transcribed(target_hwnd, Ok(text));
            &&& w.state is Inserting
            &&& !w.failed
            &&& actions == seq![ActionView::Send(CommandView::PasteText { target_hwnd, text })]
        },
        text.len() == 0 ==> {
            let w = v.transcribed(target_hwnd, Ok(text)).0;
            w.state is Idle && !w.visible && w.failed == v.failed
        },
        ({
            let w = v.transcribed(target_hwnd, Err(error)).0;
            w.state is Idle && !w.visible && w.failed
        }),
{
}

/// The end of an insertion is the end of the session: nothing of it stays, the
/// overlay goes, and the pill shows an error exactly when the paste failed.
pub proof fn insertions_end_the_session(v: UiView, ok: bool)
    ensures
        ({
            let (w, actions) = v.inserted(ok);
            &&& w.state is Idle
            &&& w.session is None
            &&& w.segments.len() == 0
            &&& w.heard is None
            &&& w.text_action is None
            &&& !w.visible
            &&& !w.bar_active
            &&& w.insertion_count == 0
            &&& w.elapsed == 0 && w.started_at is None
            &&& !ok ==> w.failed && w.pill() is Error
            &&& ok ==> w.failed == v.failed
            &&& w.paste_in_flight == v.paste_in_flight
            &&& w.voice == v.voice
            &&& actions.contains(ActionView::SyncOverlay)
            &&& actions.contains(ActionView::RestOverlay)
            &&& actions.contains(ActionView::Send(CommandView::SetActive(false)))
            &&& actions.contains(ActionView::Send(CommandView::SetFollowCursor(false)))
        }),
{
    let actions = v.inserted(ok).1;
    assert(actions[1] == ActionView::RestOverlay);
    assert(actions[3] == ActionView::Send(CommandView::SetActive(false)));
    assert(actions[4] == ActionView::Send(CommandView::SetFollowCursor(false)));
    assert(actions[5] == ActionView::SyncOverlay);
}

/// A dictation starts from idle with an empty session for the window that it
/// was asked for in, and asks for the microphone; once that runs, the session
/// listens at the microphone's rate, from no audio, and the keyboard is
/// captured.
pub proof fn dictations_start_empty(
    v: UiView,
    target_hwnd: isize,
    x: i32,
    y: i32,
    rate: u32,
    at: u64,
    now: u64,
)
    requires
        v.state is Idle,
        !v.voice,
        dictation_problem(v.config) is None,
    ensures
        ({
            let (starting, first) = v.toggled(target_hwnd, x, y, now);
            let (listening, second) = starting.capturing(CapturePurpose::Start, rate, at);
            &&& starting.state is Starting
            &&& starting.visible && starting.bar_active && !starting.failed
            &&& starting.segments.len() == 0
            &&& starting.insertion_count == 0
            &&& starting.recorded(now) == 0
            &&& starting.session matches Some(session) && {
                &&& session.target == target_hwnd
                &&& session.rate == v.config.output_sample_rate
                &&& session.entries.len() == 0
                &&& session.typing.len() == 0
                &&& session.transcripts.len() == 0
                &&& session.audio.len() == 0
            }
            &&& first.contains(ActionView::PlaceOverlay { x, y })
            &&& first.last() == ActionView::StartAudio(CapturePurpose::Start)
            &&& listening.state is Listening
            &&& listening.session == starting.session
            &&& listening.capture == Some(rate)
            &&& listening.heard matches Some(heard) && {
                &&& heard.rate == rate
                &&& heard.audio().len() == 0
                &&& !heard.has_speech
            }
            &&& second.contains(ActionView::NewSpectrum(rate))
            &&& second.contains(ActionView::Send(CommandView::SetActive(true)))
            &&& second.contains(ActionView::Send(CommandView::SetKeyboardCapture(true)))
            &&& second.last() is SyncOverlay
        }),
{
    let (starting, first) = v.toggled(target_hwnd, x, y, now);
    let (listening, second) = starting.capturing(CapturePurpose::Start, rate, at);
    assert(first[0] == ActionView::PlaceOverlay { x, y });
    assert(second[0] == ActionView::NewSpectrum(rate));
    assert(second[2] == ActionView::Send(CommandView::SetActive(true)));
    assert(second[3] == ActionView::Send(CommandView::SetKeyboardCapture(true)));
    assert(Heard::start(rate as nat).audio() =~= Seq::empty());
}

/// A dictation that cannot start changes nothing but to say why.
pub proof fn unconfigured_dictations_do_not_start(
    v: UiView,
    target_hwnd: isize,
    x: i32,
    y: i32,
    now: u64,
)
    requires
        v.state is Idle,
        !v.voice,
        dictation_problem(v.config) is Some,
    ensures
        ({
            let (w, actions) = v.toggled(target_hwnd, x, y, now);
            &&& w == v
            &&& actions.len() == 1
            &&& actions[0] matches ActionView::Send(command) && (command matches
                CommandView::ShowMessageBox { text, .. } && (
            dictation_problem(v.config)->0.text()).is_suffix_of(text))
        }),
{
    let reason = dictation_problem(v.config)->0.text();
    let text = "Cannot start dictation: "@ + reason;
    assert(text.subrange(text.len() - reason.len(), text.len() as int) =~= reason);
}

/// Stopping finishes a session once: heard speech becomes its last segment,
/// what was being typed its last insertion, the microphone stops and the
/// keyboard is released. With speech in it the session goes out to be
/// transcribed as it then is, and otherwise its text is pasted at once.
pub proof fn stopping_finishes_the_session(v: UiView, now: u64)
    requires
        v.state.composing(),
        v.session is Some,
        !(v.state is Typing) ==> v.session->0.typing.len() == 0,
    ensures
        ({
            let (w, actions) = v.stopped(now);
            let before = v.session->0;
            let speaks = v.heard matches Some(heard) && heard.has_speech && heard.audio().len() > 0
                && before.rate > 0;
            let spoken = if speaks {
                before.entries.push(EntryView::Speech)
            } else {
                before.entries
            };
            let entries = if before.typing.len() > 0 {
                spoken.push(EntryView::Insertion(actual_text(before.typing)))
            } else {
                spoken
            };
            &&& w.session is None
            &&& w.heard is None
            &&& w.capture is None
            &&& w.segments.len() == 0
            &&& v.capture is Some ==> actions.contains(ActionView::StopAudio)
            &&& releases(actions)
            &&& speech_entries(entries) > 0 ==> {
                &&& w.state is Transcribing
                &&& actions.last() matches ActionView::Transcribe { session, segments } && {
                    &&& session.entries == entries
                    &&& session.typing.len() == 0
                    &&& session.target == before.target
                    &&& session.rate == before.rate
                    &&& segments == if speaks {
                        v.segments.push(v.heard->0.audio())
                    } else {
                        v.segments
                    }
                }
            }
            &&& speech_entries(entries) == 0 && assembled(entries, Seq::empty()).len() > 0 ==> {
                &&& w.state is Inserting
                &&& actions.last() == ActionView::Send(
                    CommandView::PasteText {
                        target_hwnd: before.target,
                        text: assembled(entries, Seq::empty()),
                    },
                )
            }
            &&& speech_entries(entries) == 0 && assembled(entries, Seq::empty()).len() == 0
                ==> w.state is Idle && !w.visible
        }),
{
    let (w, actions) = v.stopped(now);
    let (view, lead) = v.sealed(now);
    stopping_releases(v, now);
    if v.capture is Some {
        assert(lead[0] == ActionView::StopAudio);
        assert(actions[0] == ActionView::StopAudio);
    }
    let open = view.session->0;
    if v.state is Typing {
        assert(committed(open).entries == if open.typing.len() > 0 {
            open.entries.push(EntryView::Insertion(actual_text(open.typing)))
        } else {
            open.entries
        });
    }
}

/// Only a session that takes input can be stopped: a second stop, or a stop of
/// what is being processed, does nothing.
pub proof fn finished_sessions_cannot_be_stopped(v: UiView, now: u64)
    ensures
        !(v.state is Starting || v.state is Listening || v.state is Typing) ==> v.stopped(now) == (
            v,
            Seq::<ActionView>::empty(),
        ),
{
}

/// Enter while listening ends the session like a second press of the hotkey.
pub proof fn enter_while_listening_stops(v: UiView, target_hwnd: isize, x: i32, y: i32, now: u64)
    requires
        v.state is Starting || v.state is Listening,
        !v.voice,
    ensures
        v.after(Win32Event::SubmitRequested, now) == v.after(
            Win32Event::ToggleRequested { target_hwnd, x, y },
            now,
        ),
        !(v.after(Win32Event::SubmitRequested, now).0.state is Listening),
{
}

/// A hotkey press while a dictation runs stops it.
pub proof fn toggling_twice_stops(v: UiView, target_hwnd: isize, x: i32, y: i32, now: u64)
    requires
        !v.voice,
        v.state is Starting || v.state is Listening || v.state is Typing,
    ensures
        ({
            let w = v.toggled(target_hwnd, x, y, now).0;
            &&& w.state is Transcribing || w.state is Inserting || w.state is Idle
            &&& w.session is None
            &&& w.capture is None
        }),
{
}

/// While listening, a line break ends the running segment and follows it in
/// the session, and a new segment begins from no audio at the microphone's
/// rate: speech before it stays before it, and none is lost.
pub proof fn line_breaks_follow_the_speech(v: UiView, now: u64)
    requires
        v.state.hearing(),
        v.session is Some,
    ensures
        ({
            let w = v.line_broken(now);
            let before = v.session->0;
            let speaks = v.heard matches Some(heard) && heard.has_speech && heard.audio().len() > 0
                && before.rate > 0;
            let spoken = if speaks {
                before.entries.push(EntryView::Speech)
            } else {
                before.entries
            };
            &&& w.state == v.state
            &&& w.capture == v.capture
            &&& w.session matches Some(session) && {
                &&& session.entries == spoken.push(EntryView::Insertion(seq!['\n']))
                &&& session.typing == before.typing
                &&& session.target == before.target
                &&& w.insertion_count == session.entries.len() - speech_entries(session.entries)
            }
            &&& w.segments == if speaks {
                v.segments.push(v.heard->0.audio())
            } else {
                v.segments
            }
            &&& w.heard matches Some(heard) && {
                &&& heard.audio().len() == 0
                &&& !heard.has_speech
                &&& v.capture matches Some(rate) ==> heard.rate == rate
                &&& v.capture is None ==> heard.rate == v.config.output_sample_rate
            }
        }),
{
    let entries = v.line_broken(now).session->0.entries;
    speech_is_among_the_entries(entries);
    assert(Heard::start(0).audio().len() == 0);
    let rate = match v.capture {
        Some(rate) => rate as nat,
        None => v.config.output_sample_rate,
    };
    assert(Heard::start(rate).audio() =~= Seq::empty());
}

/// While typing, text, pastes and line breaks join what was typed before, in
/// order, and nothing else of the session changes. At any other time they
/// change nothing of what is typed.
pub proof fn typing_joins_what_was_typed(v: UiView, text: Seq<char>, now: u64)
    requires
        v.session is Some,
    ensures
        v.state is Typing ==> {
            let typing = v.session->0.typing;
            let typed = v.typed(text).session->0;
            let pasted = v.pasted(Some(text)).session->0;
            let broken = v.line_broken(now).session->0;
            &&& typed.typing == typing + typed_atoms(text)
            &&& pasted.typing == if text.len() > 0 {
                typing.push(AtomView::Paste(text))
            } else {
                typing
            }
            &&& broken.typing == typing.push(AtomView::LineBreak)
            &&& typed.entries == v.session->0.entries
            &&& pasted.entries == v.session->0.entries
            &&& broken.entries == v.session->0.entries
            &&& v.typed(text).state is Typing && v.pasted(Some(text)).state is Typing
            &&& v.line_broken(now).state is Typing
            &&& v.pasted(None) == v
        },
        !(v.state is Typing) ==> v.typed(text) == v && v.pasted(Some(text)) == v && v.pasted(None)
            == v,
        !v.state.composing() ==> v.line_broken(now) == v,
{
}

/// Ctrl+V reads the clipboard only while something is being typed.
pub proof fn pastes_read_the_clipboard(v: UiView, now: u64)
    ensures
        v.after(Win32Event::PasteTextRequested, now).0 == v,
        v.state is Typing ==> v.after(Win32Event::PasteTextRequested, now).1 == seq![
            ActionView::ReadClipboardText,
        ],
        !(v.state is Typing) ==> v.after(Win32Event::PasteTextRequested, now).1.len() == 0,
{
}

/// Backspace on the last atom resumes the microphone, on any other it only
/// takes that atom, and with nothing typed it does nothing.
pub proof fn backspace_to_nothing_resumes(v: UiView)
    requires
        v.session is Some,
    ensures
        ({
            let (w, actions) = v.backspaced();
            let typing = v.session->0.typing;
            &&& v.state is Typing && typing.len() > 0 ==> {
                &&& w.session matches Some(session) && session.typing == typing.drop_last()
                    && session.entries == v.session->0.entries
                &&& w.state is Typing
                &&& typing.len() == 1 ==> actions == seq![
                    ActionView::StartAudio(CapturePurpose::Resume),
                ]
                &&& typing.len() > 1 ==> actions.len() == 0
            }
            &&& !(v.state is Typing) || typing.len() == 0 ==> w == v && actions.len() == 0
        }),
{
}

/// The recording time runs only while the microphone does: it starts from what
/// was recorded before, grows with the clock, and stands still from when
/// typing begins until the microphone resumes.
pub proof fn recording_time_runs_with_the_microphone(
    v: UiView,
    purpose: CapturePurpose,
    rate: u32,
    start: u64,
    stop: u64,
    now: u64,
)
    requires
        start <= stop <= now,
        v.started_at is None,
        v.elapsed + (now - start) <= u64::MAX,
    ensures
        ({
            let listening = v.capturing(purpose, rate, start).0;
            let typing = listening.typing_begun(stop).0;
            &&& v.recorded(now) == v.elapsed
            &&& listening.recorded(start) == v.elapsed
            &&& listening.recorded(now) == v.elapsed + (now - start)
            &&& typing.recorded(now) == v.elapsed + (stop - start)
            &&& typing.started_at is None
            &&& typing.capturing(CapturePurpose::Resume, rate, stop).0.recorded(now) == v.elapsed
                + (now - start)
        }),
{
}

/// A clock that goes back takes no recorded time away, and time never exceeds
/// what can be counted.
pub proof fn recorded_time_never_shrinks(v: UiView, now: u64, later_now: u64)
    requires
        now <= later_now,
    ensures
        v.elapsed <= v.recorded(now) <= v.recorded(later_now),
{
}

/// The microphone resumes into the session that it left: the session goes on
/// listening, at the microphone's rate, with everything it held, and the
/// service is told that typing has ended.
pub proof fn resuming_continues_the_session(v: UiView, rate: u32, now: u64)
    ensures
        ({
            let (w, actions) = v.capturing(CapturePurpose::Resume, rate, now);
            &&& w.state is Listening
            &&& w.session == v.session
            &&& w.segments == v.segments
            &&& w.capture == Some(rate)
            &&& w.heard matches Some(heard) && heard.rate == rate && heard.audio().len() == 0
            &&& actions.contains(ActionView::Send(CommandView::EndTyping))
            &&& actions.contains(ActionView::NewSpectrum(rate))
        }),
{
    let (w, actions) = v.capturing(CapturePurpose::Resume, rate, now);
    assert(actions[0] == ActionView::NewSpectrum(rate));
    assert(actions[2] == ActionView::Send(CommandView::EndTyping));
    assert(Heard::start(rate as nat).audio() =~= Seq::empty());
}

/// A microphone that does not start ends a new session and says why; one that
/// does not resume finishes the session, with everything it held.
pub proof fn failed_microphones_end_the_session(v: UiView, error: Seq<char>, now: u64)
    ensures
        ({
            let (w, actions) = v.not_capturing(CapturePurpose::Start, error, now);
            &&& w.state is Idle && w.session is None && !w.visible
            &&& actions.last() matches ActionView::Send(command) && (command matches
                CommandView::ShowMessageBox { text, .. } && error.is_suffix_of(text))
        }),
        ({
            let (w, actions) = v.not_capturing(CapturePurpose::Resume, error, now);
            &&& w == v.stopped(now).0
            &&& v.stopped(now).1.is_suffix_of(actions)
            &&& actions[0] matches ActionView::Send(command) && (command matches
                CommandView::ShowMessageBox { text, .. } && error.is_suffix_of(text))
        }),
{
    let started = "Audio capture failed: "@ + error;
    let resumed = "Could not resume audio capture: "@ + error;
    assert(error =~= started.subrange(started.len() - error.len(), started.len() as int));
    assert(error =~= resumed.subrange(resumed.len() - error.len(), resumed.len() as int));
    let stop = v.stopped(now).1;
    let actions = v.not_capturing(CapturePurpose::Resume, error, now).1;
    assert(stop =~= actions.subrange(actions.len() - stop.len(), actions.len() as int));
}

/// A session that holds 256 MiB of audio is stopped; one that holds less, or
/// does not listen, goes on.
pub proof fn abandoned_sessions_are_stopped(v: UiView, now: u64)
    requires
        v.session is Some,
        v.heard is Some,
    ensures
        ({
            let bytes = v.session->0.audio.len() + v.heard->0.audio().len();
            &&& v.state.hearing() && bytes >= 0x1000_0000 ==> v.pumped(now) == v.stopped(now)
            &&& !v.state.hearing() || bytes < 0x1000_0000 ==> v.pumped(now) == (
                v,
                Seq::<ActionView>::empty(),
            )
        }),
{
}

/// An image is read only while nothing else is going on, no other image is on
/// its way and there is a window to paste into; its path goes to that window,
/// and the next image may follow once the paste is over or has failed.
pub proof fn images_go_one_at_a_time(
    v: UiView,
    target_hwnd: isize,
    path: Seq<char>,
    error: Seq<char>,
    done: Result<(), String>,
    now: u64,
)
    ensures
        ({
            let asked = v.after(Win32Event::PasteImageRequested { target_hwnd }, now);
            &&& asked.0 == v
            &&& asked.1.len() > 0 ==> asked.1 == seq![
                ActionView::ReadClipboardImage { target_hwnd },
            ]
            &&& asked.1.len() > 0 <==> v.state is Idle && !v.paste_in_flight && target_hwnd != 0
                && paste_problem(v.config) is None
        }),
        ({
            let (reading, upload) = v.image_read(target_hwnd, true);
            let (uploaded, paste) = reading.image_uploaded(target_hwnd, Ok(path));
            &&& reading.paste_in_flight
            &&& upload == seq![ActionView::UploadImage { target_hwnd }]
            &&& uploaded.paste_in_flight
            &&& paste == seq![ActionView::Send(CommandView::PastePath { target_hwnd, text: path })]
            &&& !uploaded.after(Win32Event::PathPasteCompleted(done), now).0.paste_in_flight
            &&& !reading.image_uploaded(target_hwnd, Err(error)).0.paste_in_flight
            &&& reading.image_uploaded(target_hwnd, Err(error)).1.len() == 0
            &&& reading.state == v.state && reading.session == v.session
        }),
        v.image_read(target_hwnd, false) == (v, Seq::<ActionView>::empty()),
        v.after(Win32Event::PathPasteCompleted(done), now).1.len() == 0,
{
}

/// Voice starts from idle, runs once it has begun, stops once when it is asked
/// to, and is over when it says so.
pub proof fn voice_runs_from_begin_to_stop(v: UiView)
    ensures
        !v.voice && v.state is Idle ==> v.voice_toggled() == (v, seq![ActionView::StartVoice]),
        ({
            let running = v.voice_begun(true).0;
            let (stopping, first) = running.voice_toggled();
            let (again, second) = stopping.voice_toggled();
            let (over, third) = stopping.voice_reported(VoiceEvent::Stopped);
            &&& running.voice && !running.voice_stopping
            &&& v.voice_begun(false).0 == v
            &&& stopping.voice && stopping.voice_stopping
            &&& first[0] is StopVoice
            &&& again == stopping && second.len() == 0
            &&& !over.voice && !over.voice_stopping
            &&& third[0] is FinishVoice
            &&& running.voice_reported(VoiceEvent::Connected).0 == running
        }),
        forall|event: VoiceEvent|
            #![trigger v.voice_reported(event)]
            !v.voice ==> v.voice_reported(event) == (v, Seq::<ActionView>::empty()),
{
}

/// The configuration is reloaded only while nothing is going on.
pub proof fn reloads_wait_for_idle(v: UiView, now: u64)
    ensures
        v.after(Win32Event::ReloadConfigRequested, now).0 == v,
        v.after(Win32Event::ReloadConfigRequested, now).1.contains(ActionView::LoadConfig)
            <==> v.state is Idle && !v.voice,
        v.after(Win32Event::ReloadConfigRequested, now).1.len() == 1,
{
    let actions = v.after(Win32Event::ReloadConfigRequested, now).1;
    if v.state is Idle && !v.voice {
        assert(actions[0] is LoadConfig);
    }
}

/// Quitting ends what runs, in order: voice is stopped and waited for, the
/// microphone stops, and the service is shut down before the window closes.
pub proof fn quitting_ends_everything(v: UiView)
    ensures
        ({
            let (w, actions) = v.quitted();
            let n = actions.len();
            &&& !w.voice
            &&& w.capture is None
            &&& v.voice ==> actions[0] is StopVoice && actions[1] is FinishVoice
            &&& actions.contains(ActionView::ShutdownActivity)
            &&& v.capture is Some ==> actions.contains(ActionView::StopAudio)
            &&& n >= 3
            &&& actions[n - 1] is CloseWindow
            &&& actions[n - 2] == ActionView::Send(CommandView::Shutdown)
        }),
{
    let actions = v.quitted().1;
    let first: int = if v.voice {
        2
    } else {
        0
    };
    assert(actions[first] is ShutdownActivity);
    if v.capture is Some {
        assert(actions[first + 1] is StopAudio);
    }
}

/// The tray's requests are carried out at once and change nothing else.
pub proof fn tray_requests_change_nothing(v: UiView, x: i32, y: i32, now: u64)
    ensures
        v.after(Win32Event::OpenLogRequested, now) == (v, seq![ActionView::OpenLog]),
        v.after(Win32Event::CopyLogPathRequested, now) == (v, seq![ActionView::CopyLogPath]),
        v.after(Win32Event::ToggleActivityRequested, now) == (v, seq![ActionView::ToggleActivity]),
        v.after(Win32Event::OpenArtifactsRequested, now) == (v, seq![ActionView::OpenArtifacts]),
        v.after(Win32Event::OpenJournalRequested, now) == (v, seq![ActionView::OpenJournal]),
        v.after(Win32Event::AboutRequested, now) == (v, seq![ActionView::ShowAbout]),
        v.after(Win32Event::PositionChanged { x, y }, now) == (
            v,
            seq![ActionView::AimOverlay { x, y }],
        ),
        v.after(Win32Event::ServiceStopped, now) == (v, Seq::<ActionView>::empty()),
{
}

/// A keyboard that cannot be captured cancels the session and says why; with
/// no session to cancel it is ignored.
pub proof fn keyboard_failures_cancel(v: UiView, error: String, now: u64)
    ensures
        v.state.composing() ==> {
            let (w, actions) = v.after(Win32Event::KeyboardCaptureFailed(error), now);
            &&& w == v.cancelled().0
            &&& actions.last() matches ActionView::Send(command) && (command matches
                CommandView::ShowMessageBox { text, .. } && text == error@)
        },
        !v.state.composing() ==> v.after(Win32Event::KeyboardCaptureFailed(error), now) == (
            v,
            Seq::<ActionView>::empty(),
        ),
{
}

/// The pill shows what is going on: an error until the next operation begins,
/// listening while a session takes input, idle when nothing is going on, and
/// work otherwise.
pub proof fn pills_show_what_goes_on(v: UiView)
    ensures
        v.failed <==> v.pill() is Error,
        !v.failed && (v.state is Starting || v.state is Listening || v.state is Typing)
            <==> v.pill() is Listening,
        !v.failed && v.state is Idle <==> v.pill() is Idle,
        !v.failed && (v.state is Transcribing || v.state is Inserting || v.state is FixingGrammar
            || v.state is AnsweringQuestion) <==> v.pill() is Working,
{
}

/// The bar belongs to a dictation. It counts the insertions and shows what is
/// being typed, aligned to its end, that the session is being processed, that
/// silence is being skipped, or the recording time.
pub proof fn bars_show_the_dictation(v: UiView, now: u64)
    ensures
        v.bar_active <==> v.bar(now) is Some,
        v.bar(now) matches Some(bar) ==> {
            let typed = match v.session {
                Some(session) => preview_of(session.typing, 256),
                None => Seq::empty(),
            };
            let shows_typing = v.state is Typing && typed.len() > 0;
            let processing = v.state is Transcribing || v.state is Inserting;
            let skipping = (v.state is Starting || v.state is Listening) && (v.heard matches Some(
                heard,
            ) && long_gap(heard.rate, heard.gap));
            &&& bar.count == decimal(v.insertion_count) + " inserted"@
            &&& shows_typing ==> bar.content == typed && bar.alignment is Trailing
            &&& !shows_typing ==> bar.alignment is Center
            &&& processing ==> bar.content == "processing..."@
            &&& skipping ==> bar.content == "silence skipped"@
            &&& !shows_typing && !processing && !skipping ==> bar.content == duration_text(
                (v.recorded(now) / 1_000_000_000) as nat,
            )
            &&& bar.accessory is Some == ((v.state is Starting || v.state is Listening) && (
            v.feedback_until matches Some(until) && now < until))
            &&& bar.accessory matches Some(mark) ==> mark == "\u{21b5}"@
        },
{
}

/// A recording time reads back as its hours, minutes and seconds: two digits
/// of seconds behind two digits of minutes, behind the hours where there are
/// any.
pub proof fn durations_read_back(seconds: nat)
    ensures
        ({
            let text = duration_text(seconds);
            let n = text.len() as int;
            &&& n >= 5
            &&& digits_value(text.subrange(n - 2, n)) == Some(seconds % 60)
            &&& text[n - 3] == ':'
            &&& digits_value(text.subrange(n - 5, n - 3)) == Some(seconds / 60 % 60)
            &&& seconds < 3600 ==> n == 5
            &&& seconds >= 3600 ==> text[n - 6] == ':' && digits_value(text.take(n - 6)) == Some(
                seconds / 3600,
            )
        }),
{
    let text = duration_text(seconds);
    let n = text.len() as int;
    let minutes = seconds / 60 % 60;
    two_digits_read_back(minutes);
    two_digits_read_back(seconds % 60);
    let clock = two_digits(minutes).push(':') + two_digits(seconds % 60);
    assert(clock.len() == 5);
    assert(text.subrange(n - 2, n) =~= two_digits(seconds % 60));
    assert(text.subrange(n - 5, n - 3) =~= two_digits(minutes));
    if seconds >= 3600 {
        decimals_read_back(seconds / 3600);
        assert(text.take(n - 6) =~= decimal(seconds / 3600));
    }
}

proof fn two_digits_read_back(n: nat)
    requires
        n < 100,
    ensures
        two_digits(n).len() == 2,
        digits_value(two_digits(n)) == Some(n),
{
    decimals_read_back(n);
    decimals_read_back(n / 10);
    if n < 10 {
        let s = two_digits(n);
        assert(s =~= seq!['0', decimal(n)[0]]);
        assert(s.drop_last() =~= seq!['0']);
        assert(decimal(n).len() == 1);
        assert(decimal(n) =~= seq![decimal(n)[0]]);
        reveal_with_fuel(digits_value, 3);
    } else {
        assert(decimal(n / 10).len() == 1);
        assert(decimal(n).drop_last() =~= decimal(n / 10));
    }
}

/// The transcripts fill the slots of a session in order, and slots beyond them
/// stay as they are.
pub proof fn transcripts_fill_slots_in_order(
    slots: Seq<Option<TranscriptView>>,
    transcripts: Seq<TranscriptView>,
    i: int,
)
    requires
        0 <= i < slots.len(),
    ensures
        filled(slots, transcripts).len() == slots.len(),
        i < transcripts.len() ==> filled(slots, transcripts)[i] == Some(transcripts[i]),
        i >= transcripts.len() ==> filled(slots, transcripts)[i] == slots[i],
{
}

/// The insertion count is that of the session's insertions, whatever was said
/// in between.
pub proof fn insertions_are_counted(s: SessionView, text: Seq<char>)
    ensures
        insertions(SessionView { entries: s.entries.push(EntryView::Speech), ..s }) == insertions(
            s,
        ),
        insertions(SessionView { entries: s.entries.push(EntryView::Insertion(text)), ..s })
            == insertions(s) + 1,
        s.entries.len() == 0 ==> insertions(s) == 0,
        committed(s).typing.len() == 0,
        s.typing.len() > 0 ==> committed(s).entries == s.entries.push(
            EntryView::Insertion(actual_text(s.typing)),
        ),
        s.typing.len() == 0 ==> committed(s) == s,
        committed(s).target == s.target && committed(s).audio == s.audio && committed(s).rate
            == s.rate && committed(s).transcripts == s.transcripts,
{
    speech_is_among_the_entries(s.entries);
    assert(s.entries.push(EntryView::Speech).drop_last() =~= s.entries);
    assert(s.entries.push(EntryView::Insertion(text)).drop_last() =~= s.entries);
}

/// Hiding the overlay ends everything that it showed and nothing else, and
/// says so to the service.
pub proof fn hiding_ends_the_operation(v: UiView)
    ensures
        ({
            let (w, actions) = v.hidden();
            &&& w.state is Idle && !w.visible && !w.bar_active
            &&& w.session is None && w.segments.len() == 0 && w.heard is None
            &&& w.text_action is None
            &&& w.insertion_count == 0 && w.elapsed == 0 && w.started_at is None
            &&& w.feedback_until is None
            &&& w.config == v.config && w.failed == v.failed && w.voice == v.voice
            &&& w.voice_stopping == v.voice_stopping && w.paste_in_flight == v.paste_in_flight
            &&& w.activity_key == v.activity_key
            &&& releases(actions)
            &&& actions.contains(ActionView::Send(CommandView::SetActive(false)))
            &&& actions.contains(ActionView::Send(CommandView::SetFollowCursor(false)))
            &&& actions.contains(ActionView::RestOverlay)
            &&& actions.last() is SyncOverlay
        }),
{
    let actions = v.hidden().1;
    hiding_releases(v, Seq::empty());
    assert(actions[0] is RestOverlay);
    assert(actions[1] == keyboard_capture(false));
    assert(actions[2] == ActionView::Send(CommandView::SetActive(false)));
    assert(actions[3] == ActionView::Send(CommandView::SetFollowCursor(false)));
}

/// Two reports of activity tracking that differ in anything are told apart.
pub proof fn activity_reports_differ(
    running: bool,
    frames: nat,
    summary: Seq<char>,
    other_running: bool,
    other_frames: nat,
    other_summary: Seq<char>,
)
    requires
        activity_key(running, frames, summary) == activity_key(
            other_running,
            other_frames,
            other_summary,
        ),
    ensures
        running == other_running,
        frames == other_frames,
        summary == other_summary,
{
    reveal_strlit("true");
    reveal_strlit("false");
    let a = activity_key(running, frames, summary);
    let b = activity_key(other_running, other_frames, other_summary);
    assert(a[0] == truth(running)[0]);
    assert(b[0] == truth(other_running)[0]);
    assert(truth(true)[0] == 't' && truth(false)[0] == 'f');
    let lead = truth(running).push(':');
    let rest = decimal(frames).push(':') + summary;
    let other_rest = decimal(other_frames).push(':') + other_summary;
    assert(a =~= lead + rest);
    assert(b =~= lead + other_rest);
    assert(rest =~= a.skip(lead.len() as int));
    assert(other_rest =~= b.skip(lead.len() as int));
    decimals_read_back(frames);
    decimals_read_back(other_frames);
    let n = decimal(frames).len() as int;
    let m = decimal(other_frames).len() as int;
    assert(rest[n] == ':' && other_rest[m] == ':');
    assert(n == m) by {
        if n < m {
            assert(other_rest[n] == decimal(other_frames)[n]);
        }
        if m < n {
            assert(rest[m] == decimal(frames)[m]);
        }
    }
    assert(decimal(frames) =~= rest.take(n));
    assert(decimal(other_frames) =~= other_rest.take(n));
    assert(summary =~= rest.skip(n + 1));
    assert(other_summary =~= other_rest.skip(n + 1));
}

/// The actions hold a tooltip, and it is `text`.
pub open spec fn tray_says(actions: Seq<ActionView>, text: Seq<char>) -> bool {
    exists|i: int|
        0 <= i < actions.len() && #[trigger] actions[i] == ActionView::Send(
            CommandView::SetTooltip(text),
        )
}

proof fn tray_says_at(actions: Seq<ActionView>, text: Seq<char>, i: int)
    requires
        0 <= i < actions.len(),
        actions[i] == ActionView::Send(CommandView::SetTooltip(text)),
    ensures
        tray_says(actions, text),
{
}

/// The tray says how a dictation goes on: that it starts, listens, is being
/// typed into or transcribed, and how it ended.
pub proof fn tray_follows_the_dictation(
    v: UiView,
    target_hwnd: isize,
    x: i32,
    y: i32,
    purpose: CapturePurpose,
    rate: u32,
    now: u64,
)
    ensures
        dictation_problem(v.config) is None ==> tray_says(
            v.begun(target_hwnd, x, y).1,
            "Ashe Worker - Starting... - Win+Shift+H"@,
        ),
        tray_says(
            v.capturing(purpose, rate, now).1,
            "Ashe Worker - Listening... - Win+Shift+H"@,
        ),
        v.state.hearing() ==> tray_says(
            v.typing_begun(now).1,
            "Ashe Worker - Typing - Enter to resume - Win+Shift+H"@,
        ),
        v.stopped(now).0.state is Transcribing && v.state.composing() ==> tray_says(
            v.stopped(now).1,
            "Ashe Worker - Transcribing... - Win+Shift+H"@,
        ),
        !(v.state is Idle) ==> tray_says(
            v.cancelled().1,
            "Ashe Worker - Cancelled - Win+Shift+H"@,
        ),
        tray_says(v.without_transcript().1, "Ashe Worker - Idle - Win+Shift+H"@),
        tray_says(v.inserted(true).1, "Ashe Worker - Inserted - Win+Shift+H"@),
        tray_says(v.inserted(false).1, "Ashe Worker - Paste error - Win+Shift+H"@),
        v.state is Transcribing ==> tray_says(
            v.transcribed(target_hwnd, Err(Seq::empty())).1,
            "Ashe Worker - Transcription error - Win+Shift+H"@,
        ),
{
    if dictation_problem(v.config) is None {
        tray_says_at(
            v.begun(target_hwnd, x, y).1,
            "Ashe Worker - Starting... - Win+Shift+H"@,
            1,
        );
    }
    tray_says_at(
        v.capturing(purpose, rate, now).1,
        "Ashe Worker - Listening... - Win+Shift+H"@,
        1,
    );
    if v.state.hearing() {
        let actions = v.typing_begun(now).1;
        tray_says_at(
            actions,
            "Ashe Worker - Typing - Enter to resume - Win+Shift+H"@,
            actions.len() - 1,
        );
    }
    if v.stopped(now).0.state is Transcribing && v.state.composing() {
        let actions = v.stopped(now).1;
        tray_says_at(
            actions,
            "Ashe Worker - Transcribing... - Win+Shift+H"@,
            actions.len() - 2,
        );
    }
    if !(v.state is Idle) {
        let actions = v.cancelled().1;
        tray_says_at(
            actions,
            "Ashe Worker - Cancelled - Win+Shift+H"@,
            actions.len() - 2,
        );
    }
    tray_says_at(v.without_transcript().1, "Ashe Worker - Idle - Win+Shift+H"@, 0);
    tray_says_at(v.inserted(true).1, "Ashe Worker - Inserted - Win+Shift+H"@, 0);
    tray_says_at(v.inserted(false).1, "Ashe Worker - Paste error - Win+Shift+H"@, 0);
    if v.state is Transcribing {
        tray_says_at(
            v.transcribed(target_hwnd, Err(Seq::empty())).1,
            "Ashe Worker - Transcription error - Win+Shift+H"@,
            0,
        );
    }
}

/// The tray says how a text action and a voice session go on.
pub proof fn tray_follows_actions_and_voice(
    v: UiView,
    target_hwnd: isize,
    x: i32,
    y: i32,
    text: Seq<char>,
    error: Seq<char>,
    report: String,
)
    ensures
        tray_says(
            v.action_begun(TextActionKind::FixGrammar, target_hwnd, x, y, Ok(Some(text))).1,
            "Ashe Worker - Fixing grammar... - Win+Shift+H"@,
        ),
        tray_says(
            v.action_begun(TextActionKind::AnswerQuestion, target_hwnd, x, y, Ok(Some(text))).1,
            "Ashe Worker - Answering... - Win+Shift+H"@,
        ),
        forall|kind: TextActionKind|
            tray_says(
                #[trigger] v.action_begun(kind, target_hwnd, x, y, Ok(None)).1,
                "Ashe Worker - No text selected - Win+Shift+H"@,
            ),
        v.state.asking() && v.text_action is Some ==> tray_says(
            v.action_answered(Err(error)).1,
            "Ashe Worker - LLM error - Win+Shift+H"@,
        ) && v.action_answered(Err(error)).0.failed,
        v.state.asking() && v.text_action is Some && trimmed(text).len() == 0 ==> tray_says(
            v.action_answered(Ok(text)).1,
            "Ashe Worker - Empty result - Win+Shift+H"@,
        ),
        tray_says(v.voice_begun(true).1, "Ashe Worker - Voice connecting - Win+Shift+A"@),
        tray_says(v.voice_begun(false).1, "Ashe Worker - Voice configuration error - Win+Shift+A"@),
        v.voice && !v.voice_stopping ==> tray_says(
            v.voice_toggled().1,
            "Ashe Worker - Voice stopping - Win+Shift+A"@,
        ),
        v.voice ==> tray_says(
            v.voice_reported(VoiceEvent::Connected).1,
            "Ashe Worker - Voice active - Win+Shift+A to stop"@,
        ),
        v.voice ==> tray_says(
            v.voice_reported(VoiceEvent::Error(report)).1,
            "Ashe Worker - Voice error - Win+Shift+A"@,
        ),
        v.voice ==> tray_says(
            v.voice_reported(VoiceEvent::Stopped).1,
            "Ashe Worker - Voice stopped - Win+Shift+A"@,
        ),
        v.voice_reported(VoiceEvent::Error(report)).0 == v,
{
    tray_says_at(
        v.action_begun(TextActionKind::FixGrammar, target_hwnd, x, y, Ok(Some(text))).1,
        "Ashe Worker - Fixing grammar... - Win+Shift+H"@,
        1,
    );
    tray_says_at(
        v.action_begun(TextActionKind::AnswerQuestion, target_hwnd, x, y, Ok(Some(text))).1,
        "Ashe Worker - Answering... - Win+Shift+H"@,
        1,
    );
    assert forall|kind: TextActionKind|
        tray_says(
            #[trigger] v.action_begun(kind, target_hwnd, x, y, Ok(None)).1,
            "Ashe Worker - No text selected - Win+Shift+H"@,
        ) by {
        tray_says_at(
            v.action_begun(kind, target_hwnd, x, y, Ok(None)).1,
            "Ashe Worker - No text selected - Win+Shift+H"@,
            0,
        );
    }
    if v.state.asking() && v.text_action is Some {
        tray_says_at(v.action_answered(Err(error)).1, "Ashe Worker - LLM error - Win+Shift+H"@, 0);
        if trimmed(text).len() == 0 {
            tray_says_at(
                v.action_answered(Ok(text)).1,
                "Ashe Worker - Empty result - Win+Shift+H"@,
                0,
            );
        }
    }
    tray_says_at(v.voice_begun(true).1, "Ashe Worker - Voice connecting - Win+Shift+A"@, 0);
    tray_says_at(
        v.voice_begun(false).1,
        "Ashe Worker - Voice configuration error - Win+Shift+A"@,
        0,
    );
    if v.voice {
        if !v.voice_stopping {
            tray_says_at(v.voice_toggled().1, "Ashe Worker - Voice stopping - Win+Shift+A"@, 1);
        }
        tray_says_at(
            v.voice_reported(VoiceEvent::Connected).1,
            "Ashe Worker - Voice active - Win+Shift+A to stop"@,
            0,
        );
        tray_says_at(
            v.voice_reported(VoiceEvent::Error(report)).1,
            "Ashe Worker - Voice error - Win+Shift+A"@,
            0,
        );
        tray_says_at(
            v.voice_reported(VoiceEvent::Stopped).1,
            "Ashe Worker - Voice stopped - Win+Shift+A"@,
            1,
        );
    }
}

/// Every box is titled with the application's name and says what it is about
/// before the reason.
pub proof fn boxes_say_what_failed(
    v: UiView,
    kind: TextActionKind,
    target_hwnd: isize,
    x: i32,
    y: i32,
    error: Seq<char>,
    now: u64,
)
    ensures
        ({
            let shown = |text: Seq<char>|
                ActionView::Send(CommandView::ShowMessageBox { title: "Ashe Worker"@, text });
            &&& dictation_problem(v.config) matches Some(problem) ==> v.begun(
                target_hwnd,
                x,
                y,
            ).1 == seq![shown("Cannot start dictation: "@ + problem.text())]
            &&& v.state is Idle ==> (v.action_problem(kind) matches Some(problem)
                ==> v.action_asked(kind, target_hwnd, x, y) == seq![
                shown("Cannot run text action: "@ + problem.text()),
            ])
            &&& v.action_begun(kind, target_hwnd, x, y, Err(error)).1 == seq![
                shown("Could not capture selected text: "@ + error),
            ]
            &&& v.not_capturing(CapturePurpose::Start, error, now).1.last() == shown(
                "Audio capture failed: "@ + error,
            )
            &&& v.not_capturing(CapturePurpose::Resume, error, now).1[0] == shown(
                "Could not resume audio capture: "@ + error,
            )
            &&& !(v.state is Idle) || v.voice ==> v.reload_asked() == seq![
                shown("Stop dictation or voice before reloading config."@),
            ]
        }),
{
}

/// A mark of an earlier line break does not outlive the typing or the session
/// that follows it.
pub proof fn line_break_marks_do_not_linger(
    v: UiView,
    target_hwnd: isize,
    x: i32,
    y: i32,
    now: u64,
)
    ensures
        dictation_problem(v.config) is None ==> v.begun(target_hwnd, x, y).0.feedback_until is None,
        v.state.hearing() ==> v.typing_begun(now).0.feedback_until is None,
        v.cancelled().0.feedback_until is None || v.state is Idle,
        v.hidden().0.feedback_until is None,
{
}

} // verus!
