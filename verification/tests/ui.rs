use ashe_worker::composition::CompositionSession;
use ashe_worker::config::{AppConfig, Environment};
use ashe_worker::pill_renderer::{PillState, TopBarAlignment};
use ashe_worker::stt::Transcript;
use ashe_worker::ui_app::{
    CapturePurpose, DictationState, TextActionKind, UiAction, UiApp, compose,
    format_recording_duration,
};
use ashe_worker::voice::VoiceEvent;
use ashe_worker::win32_service::{Win32Command, Win32Event};

const SECOND: u64 = 1_000_000_000;

fn config(vars: &[(&str, &str)]) -> AppConfig {
    let env = Environment {
        vars: vars
            .iter()
            .map(|(name, value)| (name.to_string(), value.to_string()))
            .collect(),
    };
    AppConfig::load(&env, "artifacts", "")
}

fn ready() -> UiApp {
    let vars = [
        ("FAL_KEY", "k"),
        ("TERA_API_KEY", "k"),
        ("ASHE_WORKER_BASE_URL", "https://a.test"),
        ("ASHE_PASTE_UPLOAD_TOKEN", "t"),
    ];
    UiApp::new(config(&vars)).0
}

fn toggle() -> Win32Event {
    Win32Event::ToggleRequested {
        target_hwnd: 42,
        x: 10,
        y: 20,
    }
}

fn listening() -> UiApp {
    let mut app = ready();
    let actions = app.handle_win32_event(toggle(), 0);
    assert!(matches!(
        actions.last(),
        Some(UiAction::StartAudio(CapturePurpose::Start))
    ));
    app.audio_started(CapturePurpose::Start, Ok(48_000), 0);
    assert_eq!(app.state(), DictationState::Listening);
    app
}

fn tooltips(actions: &[UiAction]) -> Vec<String> {
    actions
        .iter()
        .filter_map(|action| match action {
            UiAction::Send(Win32Command::SetTooltip(text)) => Some(text.clone()),
            _ => None,
        })
        .collect()
}

fn boxes(actions: &[UiAction]) -> Vec<String> {
    actions
        .iter()
        .filter_map(|action| match action {
            UiAction::Send(Win32Command::ShowMessageBox { text, .. }) => Some(text.clone()),
            _ => None,
        })
        .collect()
}

fn pasted(actions: &[UiAction]) -> Option<(isize, String)> {
    actions.iter().find_map(|action| match action {
        UiAction::Send(Win32Command::PasteText { target_hwnd, text }) => {
            Some((*target_hwnd, text.clone()))
        }
        _ => None,
    })
}

fn releases_keyboard(actions: &[UiAction]) -> bool {
    actions
        .iter()
        .any(|action| matches!(action, UiAction::Send(Win32Command::SetKeyboardCapture(false))))
}

#[test]
fn durations_show_minutes_and_hours() {
    assert_eq!(format_recording_duration(0), "00:00");
    assert_eq!(format_recording_duration(65), "01:05");
    assert_eq!(format_recording_duration(3_599), "59:59");
    assert_eq!(format_recording_duration(3_600), "1:00:00");
    assert_eq!(format_recording_duration(360_061), "100:01:01");
}

#[test]
fn dictation_needs_its_configuration() {
    let (mut app, first) = UiApp::new(config(&[]));
    assert_eq!(tooltips(&first), ["Ashe Worker - Idle - Win+Shift+H"]);
    let actions = app.handle_win32_event(toggle(), 0);
    assert_eq!(boxes(&actions), ["Cannot start dictation: FAL_KEY is missing"]);
    assert_eq!(app.state(), DictationState::Idle);
}

#[test]
fn a_failed_microphone_ends_the_session() {
    let mut app = ready();
    app.handle_win32_event(toggle(), 0);
    let actions = app.audio_started(CapturePurpose::Start, Err("no device".to_string()), 0);
    assert_eq!(boxes(&actions), ["Audio capture failed: no device"]);
    assert_eq!(app.state(), DictationState::Idle);
    assert!(releases_keyboard(&actions));
    assert!(!app.is_visible());
}

#[test]
fn typed_sessions_are_inserted_once() {
    let mut app = listening();
    app.handle_win32_event(Win32Event::TypingStarted, SECOND);
    assert_eq!(app.state(), DictationState::Typing);
    app.handle_win32_event(Win32Event::TextInput("hello ".to_string()), SECOND);
    let read = app.handle_win32_event(Win32Event::PasteTextRequested, SECOND);
    assert!(matches!(read[..], [UiAction::ReadClipboardText]));
    app.paste_text(Some("secret".to_string()));
    let bar = app.top_bar_content(SECOND).unwrap();
    assert_eq!(bar.content, "hello [pasted]");
    assert_eq!(bar.alignment, TopBarAlignment::Trailing);
    assert_eq!(bar.count, "0 inserted");
    let actions = app.handle_win32_event(toggle(), 2 * SECOND);
    assert_eq!(pasted(&actions), Some((42, "hello secret".to_string())));
    assert_eq!(app.state(), DictationState::Inserting);
    assert_eq!(app.top_bar_content(0).unwrap().content, "processing...");
    let done = app.handle_win32_event(Win32Event::PasteCompleted(Ok(())), 3 * SECOND);
    assert_eq!(tooltips(&done), ["Ashe Worker - Inserted - Win+Shift+H"]);
    assert_eq!(app.state(), DictationState::Idle);
    assert!(app.top_bar_content(0).is_none());
}

#[test]
fn submitting_typing_resumes_the_microphone() {
    let mut app = listening();
    app.handle_win32_event(Win32Event::TypingStarted, 0);
    app.handle_win32_event(Win32Event::TextInput("a".to_string()), 0);
    let actions = app.handle_win32_event(Win32Event::SubmitRequested, 0);
    assert!(matches!(
        actions[..],
        [UiAction::StartAudio(CapturePurpose::Resume)]
    ));
    let actions = app.audio_started(CapturePurpose::Resume, Ok(48_000), SECOND);
    assert!(actions
        .iter()
        .any(|action| matches!(action, UiAction::Send(Win32Command::EndTyping))));
    assert_eq!(app.top_bar_content(SECOND).unwrap().count, "1 inserted");
    let actions = app.handle_win32_event(Win32Event::SubmitRequested, 2 * SECOND);
    assert_eq!(pasted(&actions), Some((42, "a".to_string())));
}

#[test]
fn a_microphone_that_does_not_resume_ends_the_input() {
    let mut app = listening();
    app.handle_win32_event(Win32Event::TypingStarted, 0);
    app.handle_win32_event(Win32Event::TextInput("a".to_string()), 0);
    app.handle_win32_event(Win32Event::SubmitRequested, 0);
    let actions = app.audio_started(CapturePurpose::Resume, Err("gone".to_string()), 0);
    assert_eq!(boxes(&actions), ["Could not resume audio capture: gone"]);
    assert_eq!(pasted(&actions), Some((42, "a".to_string())));
}

#[test]
fn clearing_the_typing_resumes_the_microphone() {
    let mut app = listening();
    app.handle_win32_event(Win32Event::TypingStarted, 0);
    app.handle_win32_event(Win32Event::TextInput("ab".to_string()), 0);
    assert!(app
        .handle_win32_event(Win32Event::BackspaceRequested, 0)
        .is_empty());
    assert!(matches!(
        app.handle_win32_event(Win32Event::BackspaceRequested, 0)[..],
        [UiAction::StartAudio(CapturePurpose::Resume)]
    ));
    assert!(app
        .handle_win32_event(Win32Event::BackspaceRequested, 0)
        .is_empty());
}

fn speech() -> Vec<u8> {
    vec![1; 960]
}

#[test]
fn spoken_sessions_wait_for_their_transcripts() {
    let mut app = listening();
    app.process_audio_chunk(&speech(), true);
    app.handle_win32_event(Win32Event::LineBreakRequested, 0);
    app.process_audio_chunk(&speech(), true);
    let mut actions = app.handle_win32_event(toggle(), SECOND);
    assert_eq!(app.state(), DictationState::Transcribing);
    assert!(releases_keyboard(&actions));
    assert!(pasted(&actions).is_none());
    let (session, segments) = match actions.pop() {
        Some(UiAction::Transcribe { session, segments }) => (session, segments),
        _ => panic!("a transcription is expected"),
    };
    assert_eq!(segments, [speech(), speech()]);
    let transcripts = ["one", "two"]
        .map(|text| Transcript {
            text: text.to_string(),
            words: Vec::new(),
        })
        .into_iter()
        .collect();
    let text = compose(session, transcripts).unwrap();
    assert_eq!(text, "one\ntwo");
    let actions = app.finish_transcription(42, Ok(text));
    assert_eq!(pasted(&actions), Some((42, "one\ntwo".to_string())));
    assert_eq!(app.state(), DictationState::Inserting);
}

#[test]
fn missing_transcripts_do_not_compose() {
    let mut session = CompositionSession::new(1, 100);
    session.push_speech(vec![1, 2]);
    assert!(compose(session, Vec::new()).is_err());
}

#[test]
fn failed_transcriptions_show_an_error() {
    let mut app = listening();
    app.process_audio_chunk(&speech(), true);
    app.handle_win32_event(toggle(), SECOND);
    let actions = app.finish_transcription(42, Err("offline".to_string()));
    assert_eq!(
        tooltips(&actions),
        ["Ashe Worker - Transcription error - Win+Shift+H"]
    );
    assert_eq!(app.pill_state(), PillState::Error);
    assert!(app.finish_transcription(42, Ok("late".to_string())).is_empty());
}

#[test]
fn silent_sessions_end_quietly() {
    let mut app = listening();
    app.process_audio_chunk(&speech(), false);
    let actions = app.handle_win32_event(toggle(), SECOND);
    assert_eq!(tooltips(&actions), ["Ashe Worker - Idle - Win+Shift+H"]);
    assert_eq!(app.state(), DictationState::Idle);
}

#[test]
fn line_breaks_show_for_one_and_a_half_seconds() {
    let mut app = listening();
    app.handle_win32_event(Win32Event::LineBreakRequested, 10 * SECOND);
    let mark = |now: u64| app.top_bar_content(now).unwrap().accessory;
    assert_eq!(mark(10 * SECOND), Some("\u{21b5}".to_string()));
    assert_eq!(mark(11 * SECOND + 499_999_999), Some("\u{21b5}".to_string()));
    assert_eq!(mark(11 * SECOND + 500_000_000), None);
}

#[test]
fn the_bar_counts_time_and_notes_silence() {
    let mut app = listening();
    assert_eq!(app.top_bar_content(61 * SECOND).unwrap().content, "01:01");
    app.process_audio_chunk(&vec![0; 48_000 * 2 * 5], false);
    assert_eq!(
        app.top_bar_content(61 * SECOND).unwrap().content,
        "silence skipped"
    );
    app.handle_win32_event(Win32Event::TypingStarted, 3 * SECOND);
    assert_eq!(app.top_bar_content(90 * SECOND).unwrap().content, "00:03");
}

#[test]
fn cancelling_drops_everything() {
    let mut app = listening();
    app.process_audio_chunk(&speech(), true);
    let actions = app.handle_win32_event(Win32Event::CancelRequested, SECOND);
    assert!(matches!(actions[0], UiAction::StopAudio));
    assert!(releases_keyboard(&actions));
    assert!(pasted(&actions).is_none());
    assert_eq!(app.state(), DictationState::Idle);
    assert_eq!(app.retained_audio_bytes(), 0);
    assert!(app.finish_transcription(42, Ok("late".to_string())).is_empty());
    assert!(app.finish_text_action(Ok("late".to_string())).is_empty());
    assert!(app
        .handle_win32_event(Win32Event::CancelRequested, SECOND)
        .is_empty());
}

#[test]
fn failed_keyboard_capture_cancels() {
    let mut app = listening();
    let failed = || Win32Event::KeyboardCaptureFailed("hook".to_string());
    let actions = app.handle_win32_event(failed(), 0);
    assert_eq!(boxes(&actions), ["hook"]);
    assert_eq!(app.state(), DictationState::Idle);
    assert!(app.handle_win32_event(failed(), 0).is_empty());
}

#[test]
fn full_sessions_stop_by_themselves() {
    let mut app = listening();
    app.process_audio_chunk(&speech(), true);
    assert!(app.pump_audio_capture(0).is_empty());
    assert_eq!(app.retained_audio_bytes(), 960);
    app.process_audio_chunk(&vec![1; 256 * 1024 * 1024], true);
    assert!(!app.pump_audio_capture(0).is_empty());
    assert_eq!(app.state(), DictationState::Transcribing);
}

#[test]
fn text_actions_replace_or_append() {
    for (kind, event, state, text, append) in [
        (
            TextActionKind::FixGrammar,
            Win32Event::FixGrammarRequested {
                target_hwnd: 7,
                x: 1,
                y: 2,
            },
            DictationState::FixingGrammar,
            "fixed",
            false,
        ),
        (
            TextActionKind::AnswerQuestion,
            Win32Event::AnswerQuestionRequested {
                target_hwnd: 7,
                x: 1,
                y: 2,
            },
            DictationState::AnsweringQuestion,
            "\n\nfixed",
            true,
        ),
    ] {
        let mut app = ready();
        let actions = app.handle_win32_event(event, 0);
        assert!(matches!(actions[..], [UiAction::ReadSelection { .. }]));
        let actions = app.selection_captured(kind, 7, 1, 2, Ok(Some("teh".to_string())));
        assert_eq!(app.state(), state);
        assert!(matches!(actions.last(), Some(UiAction::RunTextAction { .. })));
        assert!(actions
            .iter()
            .any(|action| matches!(action, UiAction::Send(Win32Command::SetEscapeCapture(true)))));
        let content = app.overlay_content(0);
        assert!(content.mini);
        assert_eq!(content.main_text, Some("processing".to_string()));
        assert_eq!(content.state, PillState::Working);
        let actions = app.finish_text_action(Ok("fixed".to_string()));
        assert!(matches!(
            actions.last(),
            Some(UiAction::Send(Win32Command::InjectText {
                target_hwnd: 7,
                text: injected,
                append_after_selection,
            })) if injected == text && *append_after_selection == append
        ));
        assert_eq!(app.state(), DictationState::Inserting);
    }
}

#[test]
fn text_actions_report_what_goes_wrong() {
    let (app, _) = UiApp::new(config(&[]));
    let actions = app.begin_text_action(TextActionKind::FixGrammar, 7, 1, 2);
    assert_eq!(
        boxes(&actions),
        ["Cannot run text action: TERA_API_KEY is missing"]
    );
    let mut app = ready();
    let kind = TextActionKind::AnswerQuestion;
    let actions = app.selection_captured(kind, 7, 1, 2, Ok(None));
    assert_eq!(
        tooltips(&actions),
        ["Ashe Worker - No text selected - Win+Shift+H"]
    );
    let actions = app.selection_captured(kind, 7, 1, 2, Err("busy".to_string()));
    assert_eq!(boxes(&actions), ["Could not capture selected text: busy"]);
    app.selection_captured(kind, 7, 1, 2, Ok(Some("q".to_string())));
    let actions = app.finish_text_action(Ok("  ".to_string()));
    assert_eq!(tooltips(&actions), ["Ashe Worker - Empty result - Win+Shift+H"]);
    app.selection_captured(kind, 7, 1, 2, Ok(Some("q".to_string())));
    let actions = app.finish_text_action(Err("down".to_string()));
    assert_eq!(tooltips(&actions), ["Ashe Worker - LLM error - Win+Shift+H"]);
    assert!(releases_keyboard(&actions));
}

#[test]
fn image_pastes_run_one_at_a_time() {
    let mut app = ready();
    let ask = || Win32Event::PasteImageRequested { target_hwnd: 3 };
    assert!(matches!(
        app.handle_win32_event(ask(), 0)[..],
        [UiAction::ReadClipboardImage { target_hwnd: 3 }]
    ));
    assert!(app.image_captured(3, false).is_empty());
    assert!(matches!(
        app.image_captured(3, true)[..],
        [UiAction::UploadImage { target_hwnd: 3 }]
    ));
    assert!(app.handle_win32_event(ask(), 0).is_empty());
    let actions = app.finish_image_upload(3, Ok("/p.png".to_string()));
    assert!(matches!(
        actions[..],
        [UiAction::Send(Win32Command::PastePath { .. })]
    ));
    app.handle_win32_event(Win32Event::PathPasteCompleted(Err("x".to_string())), 0);
    assert!(!app.handle_win32_event(ask(), 0).is_empty());
    app.image_captured(3, true);
    assert!(app
        .finish_image_upload(3, Err("x".to_string()))
        .is_empty());
    assert!(!app.handle_win32_event(ask(), 0).is_empty());
    assert!(app.begin_image_paste(0).is_empty());
}

#[test]
fn dictation_and_voice_take_turns() {
    let mut app = ready();
    assert!(matches!(
        app.handle_win32_event(Win32Event::ToggleVoiceRequested, 0)[..],
        [UiAction::StartVoice]
    ));
    let actions = app.voice_started(true);
    assert_eq!(
        tooltips(&actions),
        ["Ashe Worker - Voice connecting - Win+Shift+A"]
    );
    assert!(app.handle_win32_event(toggle(), 0).is_empty());
    assert_eq!(
        boxes(&app.reload_config()),
        ["Stop dictation or voice before reloading config."]
    );
    assert_eq!(
        tooltips(&app.pump_voice(VoiceEvent::Connected)),
        ["Ashe Worker - Voice active - Win+Shift+A to stop"]
    );
    assert_eq!(
        tooltips(&app.pump_voice(VoiceEvent::Error("x".to_string()))),
        ["Ashe Worker - Voice error - Win+Shift+A"]
    );
    let actions = app.handle_win32_event(Win32Event::ToggleVoiceRequested, 0);
    assert!(matches!(actions[0], UiAction::StopVoice));
    assert!(app
        .handle_win32_event(Win32Event::ToggleVoiceRequested, 0)
        .is_empty());
    let actions = app.pump_voice(VoiceEvent::Stopped);
    assert!(matches!(actions[0], UiAction::FinishVoice));
    assert!(app.pump_voice(VoiceEvent::Stopped).is_empty());
    let mut app = listening();
    assert!(app
        .handle_win32_event(Win32Event::ToggleVoiceRequested, 0)
        .is_empty());
}

#[test]
fn voice_may_fail_to_start() {
    let mut app = ready();
    let actions = app.voice_started(false);
    assert_eq!(
        tooltips(&actions),
        ["Ashe Worker - Voice configuration error - Win+Shift+A"]
    );
    assert!(!app.handle_win32_event(toggle(), 0).is_empty());
}

#[test]
fn configurations_are_reloaded_when_idle() {
    let mut app = ready();
    assert!(matches!(app.reload_config()[..], [UiAction::LoadConfig]));
    let actions = app.config_reloaded(config(&[("FAL_LANGUAGE", "deu")]));
    assert!(matches!(actions[0], UiAction::RestartActivity));
    assert_eq!(app.config().fal_language, "deu");
}

#[test]
fn quitting_stops_everything() {
    let mut app = listening();
    let actions = app.handle_win32_event(Win32Event::QuitRequested, 0);
    assert!(matches!(
        actions[..],
        [
            UiAction::ShutdownActivity,
            UiAction::StopAudio,
            UiAction::Send(Win32Command::Shutdown),
            UiAction::CloseWindow,
        ]
    ));
}

#[test]
fn activity_is_reported_when_it_changes() {
    let mut app = ready();
    assert_eq!(app.note_activity(true, 3, "tracking").len(), 1);
    assert!(app.note_activity(true, 3, "tracking").is_empty());
    assert_eq!(app.note_activity(true, 4, "tracking").len(), 1);
    assert_eq!(app.note_activity(false, 4, "tracking").len(), 1);
}

#[test]
fn the_about_box_says_what_runs() {
    let app = ready();
    let text = app.about_text("1.2", "b3", "idle", "/a");
    assert!(text.starts_with(
        "Ashe Worker\r\nVersion: 1.2\r\nBuild: b3\r\n\r\nDictate: Win+Shift+H\r\n"
    ));
    assert!(text.contains("\r\nActivity tracking: idle\r\nArtifacts: /a\r\nConfig: language=eng"));
}

#[test]
fn simple_requests_are_passed_on() {
    let mut app = ready();
    for (event, expected) in [
        (Win32Event::OpenLogRequested, "log"),
        (Win32Event::CopyLogPathRequested, "path"),
        (Win32Event::ToggleActivityRequested, "activity"),
        (Win32Event::OpenArtifactsRequested, "artifacts"),
        (Win32Event::OpenJournalRequested, "journal"),
        (Win32Event::AboutRequested, "about"),
        (Win32Event::PositionChanged { x: 1, y: 2 }, "aim"),
        (Win32Event::ServiceStopped, "nothing"),
    ] {
        let actions = app.handle_win32_event(event, 0);
        let found = match actions[..] {
            [UiAction::OpenLog] => "log",
            [UiAction::CopyLogPath] => "path",
            [UiAction::ToggleActivity] => "activity",
            [UiAction::OpenArtifacts] => "artifacts",
            [UiAction::OpenJournal] => "journal",
            [UiAction::ShowAbout] => "about",
            [UiAction::AimOverlay { x: 1, y: 2 }] => "aim",
            [] => "nothing",
            _ => "other",
        };
        assert_eq!(found, expected);
    }
}

#[test]
fn backspace_takes_a_line_break_back() {
    let mut app = listening();
    app.handle_win32_event(Win32Event::TypingStarted, SECOND);
    app.handle_win32_event(Win32Event::TextInput("a".to_string()), SECOND);
    let preview = |app: &UiApp| app.top_bar_content(SECOND).map(|bar| bar.content);
    assert_eq!(preview(&app), Some("a".to_string()));
    app.handle_win32_event(Win32Event::LineBreakRequested, SECOND);
    assert_eq!(preview(&app), Some("a\u{21b5}".to_string()));
    assert!(app.handle_win32_event(Win32Event::BackspaceRequested, SECOND).is_empty());
    assert_eq!(preview(&app), Some("a".to_string()));
    app.paste_text(Some("secret".to_string()));
    assert_eq!(preview(&app), Some("a[pasted]".to_string()));
    app.handle_win32_event(Win32Event::BackspaceRequested, SECOND);
    assert_eq!(preview(&app), Some("a".to_string()));
}

#[test]
fn captures_end_with_the_events_that_stop_them() {
    let mut app = ready();
    assert!(!app.ends_capture(&toggle()));
    assert!(!app.ends_capture(&Win32Event::QuitRequested));
    app = listening();
    for event in [
        toggle(),
        Win32Event::CancelRequested,
        Win32Event::SubmitRequested,
        Win32Event::TypingStarted,
        Win32Event::KeyboardCaptureFailed("no hook".to_string()),
        Win32Event::QuitRequested,
    ] {
        assert!(app.ends_capture(&event));
    }
    assert!(!app.ends_capture(&Win32Event::LineBreakRequested));
    assert!(!app.ends_capture(&Win32Event::PositionChanged { x: 1, y: 2 }));
    app.handle_win32_event(Win32Event::TypingStarted, SECOND);
    assert!(!app.ends_capture(&Win32Event::SubmitRequested));
}
