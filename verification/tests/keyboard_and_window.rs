use ashe_worker::pill_renderer::PillState;
use ashe_worker::win32_service::{
    CaptureAction, CaptureControl, CaptureStep, CommandDrain, CommandEffect, HotkeyAction,
    KeyOutcome, KeyStep,
    KeyboardHookState, MenuEntry, MenuItem, ModifierState, OverlayGuard, OverlayUpdate, Route,
    ServiceState, Translation, VK_BACK, VK_ESCAPE, VK_LSHIFT, VK_RETURN, Win32Command, Win32Event,
    WorkArea, active_input_position, classify_key, decode_utf16, effective_action, hotkey,
    hotkey_event, is_text_candidate, key_transition, menu_event, menu_id, route, target_window,
    translate_text, tray_menu,
};

fn modifiers() -> ModifierState {
    ModifierState {
        shift: false,
        control: false,
        alt: false,
        right_alt: false,
        windows: false,
    }
}

fn hook(typing: bool) -> KeyboardHookState {
    KeyboardHookState {
        keyboard_state: [0; 256],
        physical_down: [false; 256],
        captured: [false; 256],
        accepting: true,
        cancel_only: false,
        typing,
        dead_key_pending: false,
    }
}

/// Handle a transition that needs no translation.
fn handled(state: &mut KeyboardHookState, vk: u32, is_down: bool) -> KeyOutcome {
    match state.handle_key(vk, is_down) {
        KeyStep::Done(outcome) => outcome,
        KeyStep::Translate => panic!("no translation is expected"),
    }
}

#[test]
fn printable_keys_and_paste_are_captured_without_blocking_shortcuts() {
    assert_eq!(
        classify_key('A' as u32, modifiers(), false),
        CaptureAction::Text
    );
    assert_eq!(
        classify_key(
            'V' as u32,
            ModifierState {
                control: true,
                ..modifiers()
            },
            false,
        ),
        CaptureAction::Paste
    );
    for (vk, state) in [
        (
            'C' as u32,
            ModifierState {
                control: true,
                ..modifiers()
            },
        ),
        (
            'A' as u32,
            ModifierState {
                alt: true,
                ..modifiers()
            },
        ),
        (
            'D' as u32,
            ModifierState {
                windows: true,
                ..modifiers()
            },
        ),
    ] {
        assert_eq!(classify_key(vk, state, true), CaptureAction::Pass);
    }
}

#[test]
fn editing_and_session_keys_are_scoped_to_dictation() {
    assert_eq!(
        classify_key(VK_BACK, modifiers(), false),
        CaptureAction::Pass
    );
    assert_eq!(
        classify_key(VK_BACK, modifiers(), true),
        CaptureAction::Backspace
    );
    assert_eq!(
        classify_key(VK_RETURN, modifiers(), false),
        CaptureAction::Submit
    );
    assert_eq!(
        classify_key(
            VK_RETURN,
            ModifierState {
                shift: true,
                ..modifiers()
            },
            false,
        ),
        CaptureAction::LineBreak
    );
    assert_eq!(
        classify_key(VK_ESCAPE, modifiers(), false),
        CaptureAction::Cancel
    );
}

#[test]
fn escape_only_capture_forwards_everything_but_cancel() {
    assert_eq!(
        effective_action(CaptureAction::Cancel, true),
        Some(CaptureAction::Cancel)
    );
    for action in [
        CaptureAction::Text,
        CaptureAction::Paste,
        CaptureAction::Backspace,
        CaptureAction::Submit,
        CaptureAction::LineBreak,
        CaptureAction::Pass,
    ] {
        assert_eq!(effective_action(action, true), None);
    }
    for action in [
        CaptureAction::Text,
        CaptureAction::Paste,
        CaptureAction::Backspace,
        CaptureAction::Submit,
        CaptureAction::LineBreak,
        CaptureAction::Pass,
        CaptureAction::Cancel,
    ] {
        assert_eq!(effective_action(action, false), Some(action));
    }
}

#[test]
fn enter_auto_repeat_emits_only_one_submit() {
    let mut state = hook(true);
    let mut events = Vec::new();
    let press = handled(&mut state, VK_RETURN, true);
    assert!(press.captured);
    events.extend(press.events);
    state.accepting = false;
    let repeat = handled(&mut state, VK_RETURN, true);
    assert!(repeat.captured);
    events.extend(repeat.events);
    let release = handled(&mut state, VK_RETURN, false);
    assert!(release.captured);
    events.extend(release.events);
    assert!(state.captured.iter().all(|captured| !captured));
    assert!(matches!(events[0], Win32Event::SubmitRequested));
    assert!(events.len() == 1);
}

#[test]
fn end_typing_releases_backspace_to_listening() {
    let mut state = hook(true);
    state.end_typing();
    assert!(!state.typing);
    assert!(state.accepting);
    assert!(!handled(&mut state, VK_BACK, true).captured);
}

#[test]
fn shift_enter_auto_repeat_emits_only_one_line_break() {
    let mut state = hook(false);
    let mut events = Vec::new();
    let shift = handled(&mut state, VK_LSHIFT, true);
    assert!(!shift.captured);
    events.extend(shift.events);
    for is_down in [true, true, false] {
        let enter = handled(&mut state, VK_RETURN, is_down);
        assert!(enter.captured);
        events.extend(enter.events);
    }
    assert!(matches!(events[0], Win32Event::LineBreakRequested));
    assert!(events.len() == 1);
}

#[test]
fn text_starts_typing() {
    let mut state = hook(false);
    assert_eq!(state.handle_key('A' as u32, true), KeyStep::Translate);
    let outcome = state.finish_text('A' as u32, Translation::Text("a".to_string()));
    assert!(outcome.captured);
    assert_eq!(
        outcome.events,
        [
            Win32Event::TypingStarted,
            Win32Event::TextInput("a".to_string())
        ]
    );
    assert!(state.typing);
    assert!(handled(&mut state, 'A' as u32, false).captured);
    assert_eq!(state.handle_key('B' as u32, true), KeyStep::Translate);
    let outcome = state.finish_text('B' as u32, Translation::Text("b".to_string()));
    assert_eq!(outcome.events, [Win32Event::TextInput("b".to_string())]);
}

#[test]
fn keys_that_spell_nothing_pass() {
    let mut state = hook(false);
    assert_eq!(state.handle_key('A' as u32, true), KeyStep::Translate);
    let outcome = state.finish_text('A' as u32, Translation::Nothing);
    assert!(!outcome.captured);
    assert!(outcome.events.is_empty());
    assert!(!state.typing);
}

#[test]
fn dead_keys_wait_for_the_next() {
    let mut state = hook(false);
    assert_eq!(state.handle_key('A' as u32, true), KeyStep::Translate);
    let outcome = state.finish_text('A' as u32, Translation::DeadKey);
    assert!(outcome.captured);
    assert!(state.dead_key_pending);
    assert!(state.end_typing());
    assert!(!state.end_typing());
}

#[test]
fn escape_only_capture_passes_text() {
    let mut state = hook(false);
    state.cancel_only = true;
    assert!(!handled(&mut state, 'A' as u32, true).captured);
    let escape = handled(&mut state, VK_ESCAPE, true);
    assert!(escape.captured);
    assert_eq!(escape.events, [Win32Event::CancelRequested]);
}

#[test]
fn candidates_are_keys_that_may_spell() {
    assert!(is_text_candidate('A' as u32));
    assert!(is_text_candidate(0x20));
    assert!(!is_text_candidate(VK_ESCAPE));
    assert!(!is_text_candidate(VK_BACK));
}

#[test]
fn utf16_is_decoded_like_std() {
    for units in [
        vec![],
        vec![0x41, 0x42],
        vec![0xd83d, 0xde00],
        vec![0xd83d],
        vec![0xde00, 0x41],
        vec![0xd83d, 0x41, 0xd83d, 0xde00],
        vec![0xffff, 0xe000],
    ] {
        let text: String = decode_utf16(&units).into_iter().collect();
        assert_eq!(text, String::from_utf16_lossy(&units));
    }
}

#[test]
fn layouts_answer_with_text_dead_keys_or_nothing() {
    assert_eq!(translate_text(0, &[0x41]), Translation::Nothing);
    assert_eq!(translate_text(-1, &[0x41]), Translation::DeadKey);
    assert_eq!(
        translate_text(1, &[0x41, 0x42]),
        Translation::Text("A".to_string())
    );
    assert_eq!(translate_text(1, &[0x0d]), Translation::Nothing);
}

#[test]
fn hooks_stay_until_captured_keys_are_up() {
    let mut control = CaptureControl::new();
    assert_eq!(control.set_capture(true, false), CaptureStep::Install);
    control.begin_install(&[0; 256], &[false; 256], false);
    control.finish_install(true);
    assert!(control.installed);
    if let Some(keyboard) = &mut control.keyboard {
        assert!(handled(keyboard, VK_RETURN, true).captured);
    }
    match control.set_capture(false, false) {
        CaptureStep::Release { removal, .. } => assert_eq!(removal, None),
        other => panic!("a release is expected, not {other:?}"),
    }
    assert!(control.finish_if_drained().is_none());
    if let Some(keyboard) = &mut control.keyboard {
        assert!(handled(keyboard, VK_RETURN, false).captured);
    }
    assert!(control.finish_if_drained().unwrap().unhook);
    assert!(!control.installed);
}

#[test]
fn failed_hooks_leave_nothing() {
    let mut control = CaptureControl::new();
    assert_eq!(control.set_capture(true, true), CaptureStep::Install);
    control.begin_install(&[0; 256], &[false; 256], true);
    control.finish_install(false);
    assert!(!control.installed);
    assert!(control.keyboard.is_none());
    assert!(!control.force_remove().unhook);
}

#[test]
fn messages_are_routed() {
    assert_eq!(
        route(0x0312, 1001, 0, true),
        Route::Hotkey(HotkeyAction::Dictation)
    );
    assert_eq!(route(0x0312, 1001, 0, false), Route::Handled);
    assert_eq!(route(0x0312, 7, 0, true), Route::Default);
    assert_eq!(route(0x0113, 0, 0, true), Route::Timer);
    assert_eq!(route(0x8001, 0, 0x0202, true), Route::TrayClick);
    assert_eq!(route(0x8001, 0, 0x0205, true), Route::TrayMenu);
    assert_eq!(route(0x0111, 3006, 0, true), Route::Menu(MenuItem::Quit));
    assert_eq!(route(0x0111, 3006, 0, false), Route::Default);
    assert_eq!(route(0x0002, 0, 0, false), Route::Destroy);
    assert_eq!(route(0x0001, 0, 0, true), Route::Default);
    assert_eq!(key_transition(0x0100), Some(true));
    assert_eq!(key_transition(0x0105), Some(false));
    assert_eq!(key_transition(0x0001), None);
}

#[test]
fn hotkeys_and_menu_items_become_events() {
    assert_eq!(
        hotkey_event(HotkeyAction::PasteImage, 5, 1, 2),
        Win32Event::PasteImageRequested { target_hwnd: 5 }
    );
    assert_eq!(
        menu_event(MenuItem::Toggle, 5, 1, 2),
        Win32Event::ToggleRequested {
            target_hwnd: 5,
            x: 1,
            y: 2
        }
    );
    assert_eq!(target_window(9, 9), 0);
    assert_eq!(target_window(8, 9), 8);
    assert_eq!(target_window(0, 9), 0);
    let dictate = hotkey(HotkeyAction::Dictation);
    assert_eq!(dictate.id, 1001);
    assert_eq!(menu_id(MenuItem::About), 3005);
}

#[test]
fn menus_offer_what_can_be_done() {
    let labels = |active: bool, running: bool| {
        tray_menu(active, running, "idle")
            .into_iter()
            .filter_map(|entry| match entry {
                MenuEntry::Item { label, .. } => Some(label),
                _ => None,
            })
            .collect::<Vec<String>>()
    };
    assert_eq!(labels(false, false)[0], "Start dictation");
    assert_eq!(labels(true, false)[0], "Stop dictation");
    assert!(labels(false, true).contains(&"Pause activity tracking".to_string()));
}

fn frame(x: u32) -> OverlayUpdate {
    OverlayUpdate {
        x,
        y: 0,
        visible: true,
        bars: Vec::new(),
        state: PillState::Idle,
        main_text: None,
        top_bar: None,
        mini: false,
    }
}

#[test]
fn backlogs_keep_the_newest_frame() {
    let mut service = ServiceState::new(true);
    let mut pending = None;
    for command in [
        Win32Command::UpdateOverlay(frame(1)),
        Win32Command::SetActive(true),
        Win32Command::UpdateOverlay(frame(2)),
        Win32Command::SetFollowCursor(true),
    ] {
        assert_eq!(
            service.take_command(command, &mut pending),
            CommandEffect::Nothing
        );
    }
    assert_eq!(pending, Some(frame(2)));
    assert!(service.active);
    assert!(service.reports_position());
}

#[test]
fn commands_have_their_effects() {
    let mut service = ServiceState::new(true);
    let mut pending = None;
    assert_eq!(
        service.take_command(
            Win32Command::PastePath {
                target_hwnd: 3,
                text: "p".to_string()
            },
            &mut pending
        ),
        CommandEffect::Paste {
            target_hwnd: 3,
            text: "p".to_string(),
            is_path: true
        }
    );
    assert_eq!(
        service.take_command(Win32Command::SetEscapeCapture(true), &mut pending),
        CommandEffect::Capture {
            step: CaptureStep::Install,
            cancel_only: true
        }
    );
    assert_eq!(
        service.take_command(Win32Command::EndTyping, &mut pending),
        CommandEffect::Nothing
    );
    assert_eq!(
        service.take_command(Win32Command::Shutdown, &mut pending),
        CommandEffect::Close
    );
    service.take_command(
        Win32Command::SetActivityStatus {
            running: true,
            status: "busy".to_string(),
        },
        &mut pending,
    );
    assert!(service.activity_running);
    assert_eq!(service.activity_status, "busy");
}

#[test]
fn tray_clicks_pause() {
    let mut service = ServiceState::new(true);
    assert!(service.tray_click(1_000));
    assert!(!service.tray_click(750_000_999));
    assert!(service.tray_click(750_001_000));
    assert!(!service.tray_click(5));
}

#[test]
fn missing_overlays_are_reported_once() {
    let mut guard = OverlayGuard {
        present: false,
        error_logged: false,
    };
    assert!(guard.wants_creation(Some(true)));
    assert!(!guard.wants_creation(Some(false)));
    assert!(!guard.wants_update(Some(true), false));
    let pass = guard.settle(Some(true), false, false);
    assert!(pass.tried_creation && pass.log_creation && !pass.tried_update && !pass.log_gap);
    let pass = guard.settle(Some(true), false, false);
    assert!(!pass.tried_creation && !pass.log_creation && !pass.log_gap);
    guard.settle(Some(false), false, false);
    assert!(guard.wants_creation(Some(true)));
    assert!(guard.wants_update(Some(true), true));
    let pass = guard.settle(Some(true), true, false);
    assert!(guard.present);
    assert!(pass.tried_update && pass.log_update && !pass.log_creation && !pass.log_gap);
    assert!(!guard.settle(Some(true), false, false).log_update);
    assert!(!guard.settle(None, false, false).tried_update);
}

#[test]
fn shutdowns_leave_the_rest_of_the_queue() {
    let mut service = ServiceState::new(true);
    let mut drain = CommandDrain::new();
    assert_eq!(
        drain.take(&mut service, Win32Command::UpdateOverlay(frame(1))),
        Some(CommandEffect::Nothing)
    );
    assert!(!drain.is_closing());
    assert_eq!(
        drain.take(&mut service, Win32Command::Shutdown),
        Some(CommandEffect::Close)
    );
    assert!(drain.is_closing());
    assert_eq!(drain.take(&mut service, Win32Command::SetActive(true)), None);
    assert!(!service.active);
    assert_eq!(drain.frame(), None);
    let mut whole = CommandDrain::new();
    whole.take(&mut service, Win32Command::UpdateOverlay(frame(1)));
    whole.take(&mut service, Win32Command::UpdateOverlay(frame(2)));
    whole.take(&mut service, Win32Command::SetActive(true));
    assert!(service.active);
    assert_eq!(whole.frame(), Some(frame(2)));
}

#[test]
fn the_overlay_stays_near_the_cursor_and_on_the_monitor() {
    let area = WorkArea {
        left: 0,
        top: 0,
        right: 1920,
        bottom: 1040,
    };
    let at = |x: i32, y: i32| active_input_position(Some((x, y)), Some(96), Some(area));
    assert_eq!(at(500, 500), (508, 508));
    assert_eq!(at(1900, 1030), (1464, 958));
    assert_eq!(at(0, 0), (8, 31));
    assert_eq!(active_input_position(None, Some(96), Some(area)), (120, 120));
    assert_eq!(active_input_position(Some((10, -10)), None, None), (18, -2));
    assert_eq!(
        active_input_position(Some((10, 10)), Some(144), None),
        (22, 22)
    );
}

#[test]
fn navigation_and_shortcuts_pass_while_typing() {
    let mut state = hook(true);
    for vk in [0x25, 0x26, 0x09, 0x70] {
        let outcome = handled(&mut state, vk, true);
        assert!(!outcome.captured && outcome.events.is_empty());
    }
    handled(&mut state, 0xa2, true);
    for vk in ['C' as u32, VK_BACK, VK_ESCAPE] {
        let outcome = handled(&mut state, vk, true);
        assert!(!outcome.captured && outcome.events.is_empty());
    }
    assert!(handled(&mut state, 'V' as u32, true).captured);
}
