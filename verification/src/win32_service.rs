//! Keyboard capture, window messages and queued commands of the service
//! thread.
//!
//! Windows and the keyboard belong to the program around the library: it
//! hands messages and key transitions in, and carries the answers out.

use vstd::prelude::*;

use crate::native_overlay::effective_dpi;
use crate::pill_renderer::{MAIN_TOP, PILL_HEIGHT, PillState, TopBarContent, WIDTH};
use crate::text::{chars_of, control, extend, is_control, string_of};

verus! {

pub const VK_BACK: u32 = 0x08;

pub const VK_RETURN: u32 = 0x0d;

pub const VK_SHIFT: u32 = 0x10;

pub const VK_CONTROL: u32 = 0x11;

pub const VK_MENU: u32 = 0x12;

pub const VK_CAPITAL: u32 = 0x14;

pub const VK_ESCAPE: u32 = 0x1b;

pub const VK_LWIN: u32 = 0x5b;

pub const VK_RWIN: u32 = 0x5c;

pub const VK_NUMLOCK: u32 = 0x90;

pub const VK_SCROLL: u32 = 0x91;

pub const VK_LSHIFT: u32 = 0xa0;

pub const VK_RSHIFT: u32 = 0xa1;

pub const VK_LCONTROL: u32 = 0xa2;

pub const VK_RCONTROL: u32 = 0xa3;

pub const VK_LMENU: u32 = 0xa4;

pub const VK_RMENU: u32 = 0xa5;

/// The key of the letter V.
pub const VK_V: u32 = 0x56;

/// What the service tells the application.
#[derive(Debug, PartialEq)]
pub enum Win32Event {
    ToggleRequested { target_hwnd: isize, x: i32, y: i32 },
    CancelRequested,
    SubmitRequested,
    LineBreakRequested,
    TypingStarted,
    TextInput(String),
    BackspaceRequested,
    PasteTextRequested,
    KeyboardCaptureFailed(String),
    FixGrammarRequested { target_hwnd: isize, x: i32, y: i32 },
    AnswerQuestionRequested { target_hwnd: isize, x: i32, y: i32 },
    PasteImageRequested { target_hwnd: isize },
    ToggleVoiceRequested,
    PositionChanged { x: i32, y: i32 },
    ReloadConfigRequested,
    OpenLogRequested,
    CopyLogPathRequested,
    ToggleActivityRequested,
    OpenArtifactsRequested,
    OpenJournalRequested,
    AboutRequested,
    QuitRequested,
    PasteCompleted(Result<(), String>),
    PathPasteCompleted(Result<(), String>),
    ServiceStopped,
}

/// Which modifier keys are down.
#[derive(Clone, Copy, Debug, PartialEq, Eq, Structural)]
pub struct ModifierState {
    pub shift: bool,
    pub control: bool,
    pub alt: bool,
    pub right_alt: bool,
    pub windows: bool,
}

/// What a key press means during capture.
#[derive(Clone, Copy, Debug, PartialEq, Eq, Structural)]
pub enum CaptureAction {
    Pass,
    Text,
    Paste,
    Backspace,
    Submit,
    LineBreak,
    Cancel,
}

/// Keys that may produce text: space, digits and letters, the number pad and
/// the punctuation keys.
pub open spec fn text_key(vk: u32) -> bool {
    ||| vk == 0x20
    ||| 0x30 <= vk <= 0x5a
    ||| 0x60 <= vk <= 0x6f
    ||| 0xba <= vk <= 0xc0
    ||| 0xdb <= vk <= 0xdf
    ||| vk == 0xe2
    ||| vk == 0xe7
}

impl ModifierState {
    /// No modifier that turns a key into a shortcut.
    pub open spec fn plain(self) -> bool {
        !self.control && !self.alt && !self.windows
    }
}

/// What a key press means. Escape, Enter and Backspace act without control,
/// alt and Windows keys, Ctrl+V pastes, and text keys type when they are no
/// shortcut, also with AltGr. Backspace acts only while typing.
pub open spec fn meaning(vk: u32, m: ModifierState, typing: bool) -> CaptureAction {
    if vk == VK_ESCAPE && m.plain() {
        CaptureAction::Cancel
    } else if vk == VK_RETURN && m.plain() {
        if m.shift {
            CaptureAction::LineBreak
        } else {
            CaptureAction::Submit
        }
    } else if vk == VK_BACK && typing && m.plain() {
        CaptureAction::Backspace
    } else if vk == VK_V && m.control && !m.alt && !m.windows {
        CaptureAction::Paste
    } else if text_key(vk) && (m.plain() || (m.right_alt && !m.windows)) {
        CaptureAction::Text
    } else {
        CaptureAction::Pass
    }
}

pub fn is_text_candidate(vk: u32) -> (r: bool)
    ensures
        r == text_key(vk),
{
    vk == 0x20 || (0x30 <= vk && vk <= 0x5a) || (0x60 <= vk && vk <= 0x6f) || (0xba <= vk && vk
        <= 0xc0) || (0xdb <= vk && vk <= 0xdf) || vk == 0xe2 || vk == 0xe7
}

/// Classify a key press.
pub fn classify_key(vk: u32, modifiers: ModifierState, typing: bool) -> (r: CaptureAction)
    ensures
        r == meaning(vk, modifiers, typing),
{
    let plain: bool = !modifiers.control && !modifiers.alt && !modifiers.windows;
    if vk == VK_ESCAPE && plain {
        return CaptureAction::Cancel;
    }
    if vk == VK_RETURN && plain {
        return if modifiers.shift {
            CaptureAction::LineBreak
        } else {
            CaptureAction::Submit
        };
    }
    if vk == VK_BACK && typing && plain {
        return CaptureAction::Backspace;
    }
    if vk == VK_V && modifiers.control && !modifiers.alt && !modifiers.windows {
        return CaptureAction::Paste;
    }
    let alt_gr: bool = modifiers.right_alt && !modifiers.windows;
    if is_text_candidate(vk) && (plain || alt_gr) {
        CaptureAction::Text
    } else {
        CaptureAction::Pass
    }
}

/// Narrow a classified key. While only the cancel key is captured, everything
/// else passes through untouched.
pub fn effective_action(action: CaptureAction, cancel_only: bool) -> (r: Option<CaptureAction>)
    ensures
        r == if cancel_only && action != CaptureAction::Cancel {
            None
        } else {
            Some(action)
        },
{
    if cancel_only && action != CaptureAction::Cancel {
        None
    } else {
        Some(action)
    }
}

/// A key byte with the key down.
pub open spec fn pressed(key: u8) -> u8 {
    (key % 128 + 128) as u8
}

/// A key byte with the key up.
pub open spec fn released(key: u8) -> u8 {
    key % 128
}

/// A key byte with the toggle turned over.
pub open spec fn toggled(key: u8) -> u8 {
    if key % 2 == 0 {
        (key + 1) as u8
    } else {
        (key - 1) as u8
    }
}

fn press(key: u8) -> (r: u8)
    ensures
        r == pressed(key),
{
    assert(key | 0x80 == key % 128 + 128) by (bit_vector);
    key | 0x80
}

fn release(key: u8) -> (r: u8)
    ensures
        r == released(key),
{
    assert(key & 0x7f == key % 128) by (bit_vector);
    key & 0x7f
}

fn toggle_lock(key: u8) -> (r: u8)
    ensures
        r == toggled(key),
{
    assert(key % 2 == 0 ==> key ^ 1 == key + 1) by (bit_vector);
    assert(key % 2 != 0 ==> key ^ 1 == key - 1) by (bit_vector);
    key ^ 0x01
}

fn is_down_byte(key: u8) -> (r: bool)
    ensures
        r == (key >= 128),
{
    assert((key & 0x80 != 0) == (key >= 128)) by (bit_vector);
    key & 0x80 != 0
}

/// The modifiers that a key table shows.
pub open spec fn modifiers_in(keys: Seq<u8>) -> ModifierState {
    ModifierState {
        shift: keys[VK_SHIFT as int] >= 128,
        control: keys[VK_CONTROL as int] >= 128,
        alt: keys[VK_MENU as int] >= 128,
        right_alt: keys[VK_RMENU as int] >= 128,
        windows: keys[VK_LWIN as int] >= 128 || keys[VK_RWIN as int] >= 128,
    }
}

impl ModifierState {
    pub fn from_keyboard_state(state: &[u8; 256]) -> (r: Self)
        ensures
            r == modifiers_in(state@),
    {
        ModifierState {
            shift: is_down_byte(state[VK_SHIFT as usize]),
            control: is_down_byte(state[VK_CONTROL as usize]),
            alt: is_down_byte(state[VK_MENU as usize]),
            right_alt: is_down_byte(state[VK_RMENU as usize]),
            windows: is_down_byte(state[VK_LWIN as usize]) || is_down_byte(
                state[VK_RWIN as usize],
            ),
        }
    }
}

/// Keyboard capture while it is on.
pub struct KeyboardHookState {
    /// Key bytes as the keyboard layout reads them: the high bit while a key
    /// is down, the low bit while a lock is on.
    pub keyboard_state: [u8; 256],
    pub physical_down: [bool; 256],
    /// Keys whose press was captured, so that their release is as well.
    pub captured: [bool; 256],
    pub accepting: bool,
    /// Capture nothing but a bare Escape, so that typing keeps reaching the
    /// foreground application.
    pub cancel_only: bool,
    pub typing: bool,
    /// The keyboard layout waits for the key after a dead key.
    pub dead_key_pending: bool,
}

/// What a `KeyboardHookState` holds.
pub struct KeyboardView {
    pub keys: Seq<u8>,
    pub down: Seq<bool>,
    pub captured: Seq<bool>,
    pub accepting: bool,
    pub cancel_only: bool,
    pub typing: bool,
    pub dead_key: bool,
}

impl View for KeyboardHookState {
    type V = KeyboardView;

    open spec fn view(&self) -> KeyboardView {
        KeyboardView {
            keys: self.keyboard_state@,
            down: self.physical_down@,
            captured: self.captured@,
            accepting: self.accepting,
            cancel_only: self.cancel_only,
            typing: self.typing,
            dead_key: self.dead_key_pending,
        }
    }
}

/// The modifier key that a left and right pair stands for, with the pair.
pub open spec fn generic_of(vk: u32) -> Option<(int, int, int)> {
    if vk == VK_LSHIFT || vk == VK_RSHIFT {
        Some((VK_SHIFT as int, VK_LSHIFT as int, VK_RSHIFT as int))
    } else if vk == VK_LCONTROL || vk == VK_RCONTROL {
        Some((VK_CONTROL as int, VK_LCONTROL as int, VK_RCONTROL as int))
    } else if vk == VK_LMENU || vk == VK_RMENU {
        Some((VK_MENU as int, VK_LMENU as int, VK_RMENU as int))
    } else {
        None
    }
}

impl KeyboardView {
    /// After a key went down or up: its byte follows, a lock key turns its
    /// toggle over when it goes down, and a generic modifier is down while
    /// either key of its pair is.
    pub open spec fn with_key(self, vk: u32, is_down: bool) -> KeyboardView {
        let old_key = self.keys[vk as int];
        let lock = vk == VK_CAPITAL || vk == VK_NUMLOCK || vk == VK_SCROLL;
        let new_key = if !is_down {
            released(old_key)
        } else if lock && !self.down[vk as int] {
            toggled(pressed(old_key))
        } else {
            pressed(old_key)
        };
        let keys = self.keys.update(vk as int, new_key);
        let down = self.down.update(vk as int, is_down);
        KeyboardView {
            keys: match generic_of(vk) {
                Some((generic, left, right)) => keys.update(
                    generic,
                    if down[left] || down[right] {
                        pressed(keys[generic])
                    } else {
                        released(keys[generic])
                    },
                ),
                None => keys,
            },
            down,
            ..self
        }
    }
}

impl KeyboardHookState {
    fn sync_generic(&mut self, generic: usize, down: bool)
        requires
            generic < 256,
        ensures
            final(self)@ == (KeyboardView {
                keys: old(self)@.keys.update(
                    generic as int,
                    if down {
                        pressed(old(self)@.keys[generic as int])
                    } else {
                        released(old(self)@.keys[generic as int])
                    },
                ),
                ..old(self)@
            }),
    {
        let key: u8 = self.keyboard_state[generic];
        self.keyboard_state[generic] = if down {
            press(key)
        } else {
            release(key)
        };
    }

    fn update_key_state(&mut self, vk: u32, is_down: bool)
        requires
            vk < 256,
        ensures
            final(self)@ == old(self)@.with_key(vk, is_down),
    {
        let index: usize = vk as usize;
        let was_down: bool = self.physical_down[index];
        let key: u8 = self.keyboard_state[index];
        self.keyboard_state[index] = if !is_down {
            release(key)
        } else if !was_down && (vk == VK_CAPITAL || vk == VK_NUMLOCK || vk == VK_SCROLL) {
            toggle_lock(press(key))
        } else {
            press(key)
        };
        self.physical_down[index] = is_down;
        if vk == VK_LSHIFT || vk == VK_RSHIFT {
            let down: bool = self.physical_down[VK_LSHIFT as usize]
                || self.physical_down[VK_RSHIFT as usize];
            self.sync_generic(VK_SHIFT as usize, down);
        } else if vk == VK_LCONTROL || vk == VK_RCONTROL {
            let down: bool = self.physical_down[VK_LCONTROL as usize]
                || self.physical_down[VK_RCONTROL as usize];
            self.sync_generic(VK_CONTROL as usize, down);
        } else if vk == VK_LMENU || vk == VK_RMENU {
            let down: bool = self.physical_down[VK_LMENU as usize]
                || self.physical_down[VK_RMENU as usize];
            self.sync_generic(VK_MENU as usize, down);
        }
    }
}

/// What a key press spells on the keyboard layout in use.
#[derive(Debug, PartialEq)]
pub enum Translation {
    Nothing,
    DeadKey,
    Text(String),
}

/// What a key transition comes to.
#[derive(Debug, PartialEq)]
pub struct KeyOutcome {
    /// The transition is kept from the foreground application.
    pub captured: bool,
    /// The dead key that the layout holds has to be flushed, before anything
    /// else happens to the layout.
    pub flush_dead_key: bool,
    pub events: Vec<Win32Event>,
}

/// What follows a key transition.
#[derive(Debug, PartialEq)]
pub enum KeyStep {
    Done(KeyOutcome),
    /// The press may be text: translate it with the key table as it is now,
    /// and finish with the translation.
    Translate,
}

/// What a `KeyOutcome` holds.
pub struct OutcomeView {
    pub captured: bool,
    pub flush_dead_key: bool,
    pub events: Seq<Win32Event>,
}

impl View for KeyOutcome {
    type V = OutcomeView;

    open spec fn view(&self) -> OutcomeView {
        OutcomeView {
            captured: self.captured,
            flush_dead_key: self.flush_dead_key,
            events: self.events@,
        }
    }
}

/// A transition that is passed on or swallowed and does nothing else.
pub open spec fn quiet(captured: bool) -> OutcomeView {
    OutcomeView { captured, flush_dead_key: false, events: Seq::empty() }
}

impl KeyboardView {
    pub open spec fn capturing(self, vk: u32) -> KeyboardView {
        KeyboardView { captured: self.captured.update(vk as int, true), ..self }
    }

    /// The events that starting to type brings.
    pub open spec fn typing_events(self) -> Seq<Win32Event> {
        if self.typing {
            Seq::empty()
        } else {
            seq![Win32Event::TypingStarted]
        }
    }

    /// A session key: swallowed, and acting once for each time it goes down.
    /// `typing` says whether typing goes on afterwards.
    pub open spec fn session_key(
        self,
        vk: u32,
        repeated: bool,
        typing: bool,
        events: Seq<Win32Event>,
    ) -> (KeyboardView, OutcomeView) {
        let kept = self.capturing(vk);
        if repeated {
            (kept, quiet(true))
        } else {
            (
                KeyboardView { typing, dead_key: false, ..kept },
                OutcomeView { captured: true, flush_dead_key: self.dead_key, events },
            )
        }
    }

    /// What a key transition does, and what comes of it. `None` where a press
    /// has to be translated first.
    pub open spec fn key_step(self, vk: u32, is_down: bool) -> (KeyboardView, Option<OutcomeView>) {
        let k = self.with_key(vk, is_down);
        let repeated = self.down[vk as int];
        let action = meaning(vk, modifiers_in(k.keys), k.typing);
        if vk >= 256 {
            (self, Some(quiet(false)))
        } else if !is_down {
            (
                KeyboardView { captured: k.captured.update(vk as int, false), ..k },
                Some(quiet(k.captured[vk as int])),
            )
        } else if !k.accepting {
            (k, Some(quiet(k.captured[vk as int])))
        } else if k.cancel_only && action != CaptureAction::Cancel {
            (k, Some(quiet(false)))
        } else {
            match action {
                CaptureAction::Pass => (k, Some(quiet(false))),
                CaptureAction::Text => (k, None),
                CaptureAction::Backspace => (
                    KeyboardView { dead_key: false, ..k.capturing(vk) },
                    Some(
                        OutcomeView {
                            captured: true,
                            flush_dead_key: k.dead_key,
                            events: if k.dead_key {
                                Seq::empty()
                            } else {
                                seq![Win32Event::BackspaceRequested]
                            },
                        },
                    ),
                ),
                CaptureAction::Paste => {
                    let (next, outcome) = k.session_key(
                        vk,
                        repeated,
                        true,
                        k.typing_events().push(Win32Event::PasteTextRequested),
                    );
                    (next, Some(outcome))
                },
                CaptureAction::Submit => {
                    let (next, outcome) = k.session_key(
                        vk,
                        repeated,
                        false,
                        seq![Win32Event::SubmitRequested],
                    );
                    (next, Some(outcome))
                },
                CaptureAction::LineBreak => {
                    let (next, outcome) = k.session_key(
                        vk,
                        repeated,
                        k.typing,
                        seq![Win32Event::LineBreakRequested],
                    );
                    (next, Some(outcome))
                },
                CaptureAction::Cancel => {
                    let (next, outcome) = k.session_key(
                        vk,
                        repeated,
                        false,
                        seq![Win32Event::CancelRequested],
                    );
                    (next, Some(outcome))
                },
            }
        }
    }

    /// What the translation of a text key does, and what comes of it.
    pub open spec fn text_step(self, vk: u32, translation: Translation) -> (
        KeyboardView,
        OutcomeView,
    ) {
        match translation {
            Translation::Nothing => (self, quiet(false)),
            Translation::DeadKey => (
                KeyboardView { dead_key: true, typing: true, ..self.capturing(vk) },
                OutcomeView {
                    captured: true,
                    flush_dead_key: false,
                    events: self.typing_events(),
                },
            ),
            Translation::Text(text) => (
                KeyboardView { dead_key: false, typing: true, ..self.capturing(vk) },
                OutcomeView {
                    captured: true,
                    flush_dead_key: false,
                    events: if text@.len() == 0 {
                        self.typing_events()
                    } else {
                        self.typing_events().push(Win32Event::TextInput(text))
                    },
                },
            ),
        }
    }
}

fn nothing(captured: bool) -> (r: KeyOutcome)
    ensures
        r@ == quiet(captured),
{
    let r = KeyOutcome { captured, flush_dead_key: false, events: Vec::new() };
    assert(r@.events =~= Seq::empty());
    r
}

impl KeyboardHookState {
    fn capture(&mut self, vk: u32)
        requires
            vk < 256,
        ensures
            final(self)@ == old(self)@.capturing(vk),
    {
        self.captured[vk as usize] = true;
    }

    /// Begin to type unless that is what happens already.
    fn start_typing(&mut self, events: &mut Vec<Win32Event>)
        ensures
            final(self)@ == (KeyboardView { typing: true, ..old(self)@ }),
            final(events)@ == old(events)@ + old(self)@.typing_events(),
    {
        if !self.typing {
            self.typing = true;
            events.push(Win32Event::TypingStarted);
        }
        assert(events@ =~= old(events)@ + old(self)@.typing_events());
    }

    /// Forget a pending dead key; true when the layout has to be flushed.
    fn clear_dead_key_state(&mut self) -> (r: bool)
        ensures
            r == old(self)@.dead_key,
            final(self)@ == (KeyboardView { dead_key: false, ..old(self)@ }),
    {
        let pending: bool = self.dead_key_pending;
        self.dead_key_pending = false;
        pending
    }

    /// Stop typing without a submit, so that further keys count as listening
    /// input; true when the layout has to be flushed.
    pub fn end_typing(&mut self) -> (r: bool)
        ensures
            r == old(self)@.dead_key,
            final(self)@ == (KeyboardView { typing: false, dead_key: false, ..old(self)@ }),
    {
        self.typing = false;
        self.clear_dead_key_state()
    }

    fn session_key(
        &mut self,
        vk: u32,
        repeated: bool,
        typing: bool,
        events: Vec<Win32Event>,
    ) -> (r: KeyOutcome)
        requires
            vk < 256,
        ensures
            (final(self)@, r@) == old(self)@.session_key(vk, repeated, typing, events@),
    {
        self.capture(vk);
        if repeated {
            return nothing(true);
        }
        let flush_dead_key: bool = self.clear_dead_key_state();
        self.typing = typing;
        KeyOutcome { captured: true, flush_dead_key, events }
    }

    /// Take a key transition.
    pub fn handle_key(&mut self, vk: u32, is_down: bool) -> (r: KeyStep)
        ensures
            ({
                let (next, outcome) = old(self)@.key_step(vk, is_down);
                &&& final(self)@ == next
                &&& match r {
                    KeyStep::Done(done) => outcome == Some(done@),
                    KeyStep::Translate => outcome is None,
                }
            }),
    {
        if vk >= 256 {
            return KeyStep::Done(nothing(false));
        }
        let index: usize = vk as usize;
        let repeated: bool = self.physical_down[index];
        self.update_key_state(vk, is_down);
        if !is_down {
            let captured: bool = self.captured[index];
            self.captured[index] = false;
            return KeyStep::Done(nothing(captured));
        }
        if !self.accepting {
            return KeyStep::Done(nothing(self.captured[index]));
        }
        let modifiers: ModifierState = ModifierState::from_keyboard_state(&self.keyboard_state);
        let action: CaptureAction = classify_key(vk, modifiers, self.typing);
        let action: CaptureAction = match effective_action(action, self.cancel_only) {
            Some(action) => action,
            None => {
                return KeyStep::Done(nothing(false));
            },
        };
        let mut events: Vec<Win32Event> = Vec::new();
        match action {
            CaptureAction::Pass => KeyStep::Done(nothing(false)),
            CaptureAction::Text => KeyStep::Translate,
            CaptureAction::Backspace => {
                self.capture(vk);
                let flush_dead_key: bool = self.clear_dead_key_state();
                if !flush_dead_key {
                    events.push(Win32Event::BackspaceRequested);
                }
                assert(events@ =~= if flush_dead_key {
                    Seq::empty()
                } else {
                    seq![Win32Event::BackspaceRequested]
                });
                KeyStep::Done(KeyOutcome { captured: true, flush_dead_key, events })
            },
            CaptureAction::Paste => {
                let ghost k = self@;
                if !self.typing {
                    events.push(Win32Event::TypingStarted);
                }
                events.push(Win32Event::PasteTextRequested);
                assert(events@ =~= k.typing_events().push(Win32Event::PasteTextRequested));
                KeyStep::Done(self.session_key(vk, repeated, true, events))
            },
            CaptureAction::Submit => {
                events.push(Win32Event::SubmitRequested);
                assert(events@ =~= seq![Win32Event::SubmitRequested]);
                KeyStep::Done(self.session_key(vk, repeated, false, events))
            },
            CaptureAction::LineBreak => {
                events.push(Win32Event::LineBreakRequested);
                assert(events@ =~= seq![Win32Event::LineBreakRequested]);
                let typing: bool = self.typing;
                KeyStep::Done(self.session_key(vk, repeated, typing, events))
            },
            CaptureAction::Cancel => {
                events.push(Win32Event::CancelRequested);
                assert(events@ =~= seq![Win32Event::CancelRequested]);
                KeyStep::Done(self.session_key(vk, repeated, false, events))
            },
        }
    }

    /// Finish a press that had to be translated.
    pub fn finish_text(&mut self, vk: u32, translation: Translation) -> (r: KeyOutcome)
        requires
            vk < 256,
        ensures
            (final(self)@, r@) == old(self)@.text_step(vk, translation),
    {
        let mut events: Vec<Win32Event> = Vec::new();
        match translation {
            Translation::Nothing => nothing(false),
            Translation::DeadKey => {
                self.capture(vk);
                self.dead_key_pending = true;
                self.start_typing(&mut events);
                assert(events@ =~= old(self)@.typing_events());
                KeyOutcome { captured: true, flush_dead_key: false, events }
            },
            Translation::Text(text) => {
                self.capture(vk);
                self.dead_key_pending = false;
                self.start_typing(&mut events);
                let empty: bool = chars_of(&text).len() == 0;
                if !empty {
                    events.push(Win32Event::TextInput(text));
                }
                assert(events@ =~= if text@.len() == 0 {
                    old(self)@.typing_events()
                } else {
                    old(self)@.typing_events().push(Win32Event::TextInput(text))
                });
                KeyOutcome { captured: true, flush_dead_key: false, events }
            },
        }
    }
}

/// `char::from_u32` yields the character with the given code, unless the code
/// is a surrogate or beyond the last character.
pub assume_specification[ char::from_u32 ](i: u32) -> (r: Option<char>)
    ensures
        match r {
            Some(c) => c as u32 == i,
            None => 0xd800 <= i <= 0xdfff || i > 0x10ffff,
        },
;

pub open spec fn lead_surrogate(unit: u16) -> bool {
    0xd800 <= unit <= 0xdbff
}

pub open spec fn trail_surrogate(unit: u16) -> bool {
    0xdc00 <= unit <= 0xdfff
}

/// UTF-16 text, with U+FFFD for each surrogate that has no partner.
pub open spec fn decoded(units: Seq<u16>) -> Seq<char>
    decreases units.len(),
{
    if units.len() == 0 {
        Seq::empty()
    } else if lead_surrogate(units[0]) && units.len() > 1 && trail_surrogate(units[1]) {
        seq![
            (0x10000 + (units[0] - 0xd800) * 0x400 + (units[1] - 0xdc00)) as char,
        ] + decoded(units.skip(2))
    } else if lead_surrogate(units[0]) || trail_surrogate(units[0]) {
        seq!['\u{fffd}'] + decoded(units.skip(1))
    } else {
        seq![units[0] as char] + decoded(units.skip(1))
    }
}

/// The characters of `text` that are not control characters.
pub open spec fn printable(text: Seq<char>) -> Seq<char>
    decreases text.len(),
{
    if text.len() == 0 {
        Seq::empty()
    } else if control(text.last()) {
        printable(text.drop_last())
    } else {
        printable(text.drop_last()).push(text.last())
    }
}

fn char_of(code: u32) -> (r: char)
    requires
        !(0xd800 <= code <= 0xdfff),
        code <= 0x10ffff,
    ensures
        r as u32 == code,
{
    match char::from_u32(code) {
        Some(c) => c,
        None => '\u{fffd}',
    }
}

/// Decode UTF-16 text, with U+FFFD for each surrogate without a partner.
pub fn decode_utf16(units: &[u16]) -> (r: Vec<char>)
    ensures
        r@ == decoded(units@),
{
    let mut out: Vec<char> = Vec::new();
    let mut i: usize = 0;
    assert(units@.skip(0) =~= units@);
    assert(out@ + decoded(units@) =~= decoded(units@));
    while i < units.len()
        invariant
            i <= units@.len(),
            out@ + decoded(units@.skip(i as int)) == decoded(units@),
        decreases units@.len() - i,
    {
        let ghost rest = units@.skip(i as int);
        let ghost before = out@;
        let u: u16 = units[i];
        assert(rest[0] == u);
        let lead: bool = 0xd800 <= u && u <= 0xdbff;
        let pair: bool = lead && units.len() - i > 1 && 0xdc00 <= units[i + 1] && units[i + 1]
            <= 0xdfff;
        if pair {
            let v: u16 = units[i + 1];
            assert(rest[1] == v);
            assert(rest.skip(2) =~= units@.skip(i + 2));
            let code: u32 = 0x10000 + (u as u32 - 0xd800) * 0x400 + (v as u32 - 0xdc00);
            let c: char = char_of(code);
            out.push(c);
            i += 2;
            assert(out@ + decoded(units@.skip(i as int)) =~= before + decoded(rest));
        } else {
            assert(rest.skip(1) =~= units@.skip(i + 1));
            let c: char = if 0xd800 <= u && u <= 0xdfff {
                '\u{fffd}'
            } else {
                char_of(u as u32)
            };
            out.push(c);
            i += 1;
            assert(out@ + decoded(units@.skip(i as int)) =~= before + decoded(rest));
        }
    }
    assert(out@ + decoded(units@.skip(i as int)) =~= out@);
    out
}

/// What a translation by the keyboard layout comes to: `count` is negative
/// for a dead key, and otherwise the number of UTF-16 units in `units`.
pub open spec fn translated(count: int, units: Seq<u16>) -> Option<Seq<char>> {
    if count <= 0 || printable(decoded(units.take(count))).len() == 0 {
        None
    } else {
        Some(printable(decoded(units.take(count))))
    }
}

/// Judge the answer of the keyboard layout to a text key.
pub fn translate_text(count: i32, units: &[u16]) -> (r: Translation)
    requires
        count <= units@.len(),
    ensures
        match r {
            Translation::DeadKey => count < 0,
            Translation::Nothing => count >= 0 && translated(count as int, units@) is None,
            Translation::Text(text) => count >= 0 && translated(count as int, units@) == Some(
                text@,
            ),
        },
{
    if count < 0 {
        return Translation::DeadKey;
    }
    if count == 0 {
        return Translation::Nothing;
    }
    let used: &[u16] = vstd::slice::slice_subrange(units, 0, count as usize);
    assert(used@ =~= units@.take(count as int));
    let chars: Vec<char> = decode_utf16(used);
    let mut text: Vec<char> = Vec::new();
    let mut i: usize = 0;
    while i < chars.len()
        invariant
            i <= chars@.len(),
            text@ == printable(chars@.take(i as int)),
        decreases chars@.len() - i,
    {
        assert(chars@.take(i + 1).drop_last() =~= chars@.take(i as int));
        if !is_control(chars[i]) {
            text.push(chars[i]);
        }
        i += 1;
    }
    assert(chars@.take(i as int) =~= chars@);
    if text.len() == 0 {
        Translation::Nothing
    } else {
        Translation::Text(string_of(&text))
    }
}

/// A held key acts once: while it repeats, a session key is swallowed and
/// says nothing.
pub proof fn repeats_say_nothing(k: KeyboardView, vk: u32)
    requires
        vk < 256,
        k.down[vk as int],
        k.down.len() == 256,
        k.accepting,
        !k.cancel_only,
        meaning(vk, modifiers_in(k.with_key(vk, true).keys), k.typing) is Submit || meaning(
            vk,
            modifiers_in(k.with_key(vk, true).keys),
            k.typing,
        ) is LineBreak || meaning(vk, modifiers_in(k.with_key(vk, true).keys), k.typing) is Paste
            || meaning(vk, modifiers_in(k.with_key(vk, true).keys), k.typing) is Cancel,
    ensures
        k.key_step(vk, true).1 == Some(quiet(true)),
{
}

/// The release of a key is swallowed exactly when its press was, so that no
/// application sees half of a key stroke. A swallowed press marks the key, no
/// other key loses its mark, and the release clears it.
pub proof fn releases_follow_presses(k: KeyboardView, vk: u32, other: u32)
    requires
        vk < 256,
        other < 256,
        other != vk,
        k.captured.len() == 256,
    ensures
        k.key_step(vk, true).1 matches Some(outcome) ==> (outcome.captured ==> k.key_step(
            vk,
            true,
        ).0.captured[vk as int]),
        k.key_step(vk, true).1 matches Some(outcome) ==> (!outcome.captured
            && !k.captured[vk as int] ==> !k.key_step(vk, true).0.captured[vk as int]),
        k.key_step(vk, true).0.captured[other as int] == k.captured[other as int],
        k.key_step(vk, false).1 == Some(quiet(k.captured[vk as int])),
        !k.key_step(vk, false).0.captured[vk as int],
        k.key_step(vk, false).0.captured[other as int] == k.captured[other as int],
{
}

/// While only the cancel key is captured, no other press is swallowed or
/// reported, and typing stays as it is.
pub proof fn escape_only_capture_passes_the_rest(k: KeyboardView, vk: u32)
    requires
        vk < 256,
        k.accepting,
        k.cancel_only,
        !(meaning(vk, modifiers_in(k.with_key(vk, true).keys), k.typing) is Cancel),
    ensures
        k.key_step(vk, true).1 == Some(quiet(false)),
        k.key_step(vk, true).0 == k.with_key(vk, true),
{
}

/// A press that belongs to the foreground application whatever is captured:
/// a key that neither types nor steers a session, or a shortcut. Ctrl+V and
/// text with AltGr are none.
pub open spec fn foreign(vk: u32, m: ModifierState) -> bool {
    let steers = vk == VK_ESCAPE || vk == VK_RETURN || vk == VK_BACK;
    let pastes = vk == VK_V && m.control && !m.alt;
    ||| m.windows
    ||| !steers && !text_key(vk)
    ||| steers && !m.plain()
    ||| (m.control || m.alt) && !m.right_alt && !pastes
}

/// Navigation and unrelated shortcuts keep working: their presses are not
/// swallowed and not reported.
pub proof fn shortcuts_reach_the_foreground(k: KeyboardView, vk: u32)
    requires
        vk < 256,
        k.accepting,
        foreign(vk, modifiers_in(k.with_key(vk, true).keys)),
    ensures
        k.key_step(vk, true) == (k.with_key(vk, true), Some(quiet(false))),
{
}

/// Once typing has ended, Backspace passes to the application again.
pub proof fn ended_typing_releases_backspace(k: KeyboardView)
    requires
        !k.typing,
        k.accepting,
    ensures
        k.key_step(VK_BACK, true).1 == Some(quiet(false)),
{
}

/// A capture that has stopped accepting takes no new keys: presses are
/// swallowed only while their key is still marked, and nothing is reported.
pub proof fn stopped_capture_only_drains(k: KeyboardView, vk: u32, is_down: bool)
    requires
        !k.accepting,
    ensures
        k.key_step(vk, is_down).1 matches Some(outcome) && outcome.events.len() == 0,
        vk < 256 ==> (k.key_step(vk, is_down).1 matches Some(outcome) && outcome.captured
            == k.captured[vk as int]),
        !k.key_step(vk, is_down).0.accepting,
{
}

/// The keyboard as capture finds it: the given key table, corrected by the
/// keys that are down.
pub open spec fn keyboard_at_start(
    keys: Seq<u8>,
    down: Seq<bool>,
    cancel_only: bool,
) -> KeyboardView {
    KeyboardView {
        keys: Seq::new(
            256,
            |i: int|
                if down[i] {
                    pressed(keys[i])
                } else {
                    released(keys[i])
                },
        ),
        down,
        captured: Seq::new(256, |i: int| false),
        accepting: true,
        cancel_only,
        typing: false,
        dead_key: false,
    }
}

impl KeyboardHookState {
    /// Capture from now on, with the keyboard as it is.
    pub fn begin(keyboard_state: &[u8; 256], physical_down: &[bool; 256], cancel_only: bool) -> (r:
        Self)
        ensures
            r@ == keyboard_at_start(keyboard_state@, physical_down@, cancel_only),
    {
        let mut keys: [u8; 256] = *keyboard_state;
        let mut i: usize = 0;
        while i < 256
            invariant
                i <= 256,
                forall|j: int|
                    0 <= j < 256 ==> #[trigger] keys@[j] == if j >= i {
                        keyboard_state@[j]
                    } else if physical_down@[j] {
                        pressed(keyboard_state@[j])
                    } else {
                        released(keyboard_state@[j])
                    },
            decreases 256 - i,
        {
            let key: u8 = keys[i];
            keys[i] = if physical_down[i] {
                press(key)
            } else {
                release(key)
            };
            i += 1;
        }
        let r = KeyboardHookState {
            keyboard_state: keys,
            physical_down: *physical_down,
            captured: [false;256],
            accepting: true,
            cancel_only,
            typing: false,
            dead_key_pending: false,
        };
        let ghost expected = keyboard_at_start(keyboard_state@, physical_down@, cancel_only);
        assert(r@.keys =~= expected.keys);
        assert(r@.captured =~= expected.captured);
        r
    }

    /// Whether no captured key is still down.
    pub open spec fn all_released(captured: Seq<bool>) -> bool {
        forall|i: int| 0 <= i < captured.len() ==> !#[trigger] captured[i]
    }

    fn none_captured(&self) -> (r: bool)
        ensures
            r == KeyboardHookState::all_released(self@.captured),
    {
        let mut i: usize = 0;
        while i < 256
            invariant
                i <= 256,
                forall|j: int| 0 <= j < i ==> !#[trigger] self.captured@[j],
            decreases 256 - i,
        {
            if self.captured[i] {
                assert(self@.captured[i as int]);
                return false;
            }
            i += 1;
        }
        true
    }
}

/// The keyboard hook and the capture state behind it.
pub struct CaptureControl {
    pub installed: bool,
    pub keyboard: Option<KeyboardHookState>,
}

/// What a `CaptureControl` holds.
pub struct ControlView {
    pub installed: bool,
    pub keyboard: Option<KeyboardView>,
}

impl View for CaptureControl {
    type V = ControlView;

    open spec fn view(&self) -> ControlView {
        ControlView {
            installed: self.installed,
            keyboard: match self.keyboard {
                Some(k) => Some(k@),
                None => None,
            },
        }
    }
}

/// Taking the keyboard hook away.
#[derive(Clone, Copy, Debug, PartialEq, Eq, Structural)]
pub struct Removal {
    pub unhook: bool,
    pub flush_dead_key: bool,
}

/// What a change of capture asks for.
#[derive(Clone, Copy, Debug, PartialEq, Eq, Structural)]
pub enum CaptureStep {
    Nothing,
    /// Read the keyboard, begin capture with it, and install the hook.
    Install,
    /// Capture ends: flush the layout first where asked to, then take the
    /// hook away unless a captured key is still down.
    Release { flush_dead_key: bool, removal: Option<Removal> },
}

impl ControlView {
    /// Nothing is left to swallow.
    pub open spec fn drained(self) -> bool {
        match self.keyboard {
            Some(k) => !k.accepting && KeyboardHookState::all_released(k.captured),
            None => true,
        }
    }

    pub open spec fn removal(self) -> Removal {
        Removal {
            unhook: self.installed,
            flush_dead_key: match self.keyboard {
                Some(k) => k.dead_key,
                None => false,
            },
        }
    }

    pub open spec fn removed(self) -> ControlView {
        ControlView { installed: false, keyboard: None }
    }

    /// The hook goes once it is installed and drained.
    pub open spec fn finished(self) -> (ControlView, Option<Removal>) {
        if self.installed && self.drained() {
            (self.removed(), Some(self.removal()))
        } else {
            (self, None)
        }
    }

    /// Turning capture on or off. A hook that is there already just changes
    /// what it captures; a hook that goes drains first.
    pub open spec fn with_capture(self, active: bool, cancel_only: bool) -> (
        ControlView,
        CaptureStep,
    ) {
        if active && self.installed {
            (
                ControlView {
                    keyboard: match self.keyboard {
                        Some(k) => Some(KeyboardView { accepting: true, cancel_only, ..k }),
                        None => None,
                    },
                    ..self
                },
                CaptureStep::Nothing,
            )
        } else if active {
            (self, CaptureStep::Install)
        } else {
            let stopped = ControlView {
                keyboard: match self.keyboard {
                    Some(k) => Some(
                        KeyboardView { accepting: false, typing: false, dead_key: false, ..k },
                    ),
                    None => None,
                },
                ..self
            };
            let (next, removal) = stopped.finished();
            (
                next,
                CaptureStep::Release { flush_dead_key: self.removal().flush_dead_key, removal },
            )
        }
    }
}

impl CaptureControl {
    pub fn new() -> (r: Self)
        ensures
            r@ == (ControlView { installed: false, keyboard: None }),
    {
        CaptureControl { installed: false, keyboard: None }
    }

    /// Take the hook away at once.
    pub fn force_remove(&mut self) -> (r: Removal)
        ensures
            final(self)@ == old(self)@.removed(),
            r == old(self)@.removal(),
    {
        let flush_dead_key: bool = match &self.keyboard {
            Some(k) => k.dead_key_pending,
            None => false,
        };
        let unhook: bool = self.installed;
        self.installed = false;
        self.keyboard = None;
        Removal { unhook, flush_dead_key }
    }

    /// Take the hook away once it has drained.
    pub fn finish_if_drained(&mut self) -> (r: Option<Removal>)
        ensures
            (final(self)@, r) == old(self)@.finished(),
    {
        if !self.installed {
            return None;
        }
        let drained: bool = match &self.keyboard {
            Some(k) => !k.accepting && k.none_captured(),
            None => true,
        };
        if !drained {
            return None;
        }
        Some(self.force_remove())
    }

    /// Turn capture on or off.
    pub fn set_capture(&mut self, active: bool, cancel_only: bool) -> (r: CaptureStep)
        ensures
            (final(self)@, r) == old(self)@.with_capture(active, cancel_only),
    {
        if active && self.installed {
            if let Some(k) = &mut self.keyboard {
                k.accepting = true;
                k.cancel_only = cancel_only;
            }
            return CaptureStep::Nothing;
        }
        if active {
            return CaptureStep::Install;
        }
        let mut flush_dead_key: bool = false;
        if let Some(k) = &mut self.keyboard {
            k.accepting = false;
            k.typing = false;
            flush_dead_key = k.clear_dead_key_state();
        }
        let removal: Option<Removal> = self.finish_if_drained();
        CaptureStep::Release { flush_dead_key, removal }
    }

    /// Begin capture with the keyboard as it is, before the hook goes in.
    pub fn begin_install(
        &mut self,
        keyboard_state: &[u8; 256],
        physical_down: &[bool; 256],
        cancel_only: bool,
    )
        ensures
            final(self)@ == (ControlView {
                keyboard: Some(
                    keyboard_at_start(keyboard_state@, physical_down@, cancel_only),
                ),
                ..old(self)@
            }),
    {
        self.keyboard = Some(KeyboardHookState::begin(keyboard_state, physical_down, cancel_only));
    }

    /// The hook went in, or did not.
    pub fn finish_install(&mut self, ok: bool)
        ensures
            final(self)@ == if ok {
                ControlView { installed: true, ..old(self)@ }
            } else {
                ControlView { keyboard: None, ..old(self)@ }
            },
    {
        if ok {
            self.installed = true;
        } else {
            self.keyboard = None;
        }
    }

    /// Typing ended in the application; true when the layout has to be
    /// flushed.
    pub fn end_typing(&mut self) -> (r: bool)
        ensures
            r == old(self)@.removal().flush_dead_key,
            final(self)@ == (ControlView {
                keyboard: match old(self)@.keyboard {
                    Some(k) => Some(KeyboardView { typing: false, dead_key: false, ..k }),
                    None => None,
                },
                ..old(self)@
            }),
    {
        match &mut self.keyboard {
            Some(k) => k.end_typing(),
            None => false,
        }
    }
}

/// A hook is never taken away while a key whose press it swallowed is still
/// down, so the release of that key never reaches an application on its own.
pub proof fn hooks_drain_before_they_go(c: ControlView, active: bool, cancel_only: bool)
    requires
        c.installed,
        c.keyboard matches Some(k) && !KeyboardHookState::all_released(k.captured),
    ensures
        c.finished().0.installed,
        c.with_capture(active, cancel_only).0.installed,
        c.with_capture(active, cancel_only).0.keyboard matches Some(k) && k.captured
            == c.keyboard->0.captured,
{
}

pub const TOGGLE_HOTKEY_ID: i32 = 1001;

pub const FIX_GRAMMAR_HOTKEY_ID: i32 = 1006;

pub const ANSWER_QUESTION_HOTKEY_ID: i32 = 1007;

pub const PASTE_IMAGE_HOTKEY_ID: i32 = 1008;

pub const VOICE_HOTKEY_ID: i32 = 1009;

pub const MENU_TOGGLE: usize = 3001;

pub const MENU_RELOAD_CONFIG: usize = 3002;

pub const MENU_OPEN_LOG: usize = 3003;

pub const MENU_COPY_LOG_PATH: usize = 3004;

pub const MENU_ABOUT: usize = 3005;

pub const MENU_QUIT: usize = 3006;

pub const MENU_TOGGLE_ACTIVITY: usize = 3007;

pub const MENU_OPEN_ARTIFACTS: usize = 3008;

pub const MENU_OPEN_JOURNAL: usize = 3009;

/// Window messages.
pub const WM_DESTROY: u32 = 0x0002;

pub const WM_KEYDOWN: u32 = 0x0100;

pub const WM_KEYUP: u32 = 0x0101;

pub const WM_SYSKEYDOWN: u32 = 0x0104;

pub const WM_SYSKEYUP: u32 = 0x0105;

pub const WM_COMMAND: u32 = 0x0111;

pub const WM_TIMER: u32 = 0x0113;

pub const WM_LBUTTONUP: u32 = 0x0202;

pub const WM_RBUTTONUP: u32 = 0x0205;

pub const WM_HOTKEY: u32 = 0x0312;

/// The message of the tray icon.
pub const WM_TRAY: u32 = 0x8001;

/// Pause between two openings of the artifacts by tray clicks, in
/// nanoseconds.
pub const ARTIFACTS_PAUSE_NS: u64 = 750_000_000;

/// Whether a keyboard message is a press, a release, or neither.
pub fn key_transition(message: u32) -> (r: Option<bool>)
    ensures
        r == if message == WM_KEYDOWN || message == WM_SYSKEYDOWN {
            Some(true)
        } else if message == WM_KEYUP || message == WM_SYSKEYUP {
            Some(false)
        } else {
            None
        },
{
    if message == WM_KEYDOWN || message == WM_SYSKEYDOWN {
        Some(true)
    } else if message == WM_KEYUP || message == WM_SYSKEYUP {
        Some(false)
    } else {
        None
    }
}

/// The global hotkeys.
#[derive(Clone, Copy, Debug, PartialEq, Eq, Structural)]
pub enum HotkeyAction {
    Dictation,
    FixGrammar,
    AnswerQuestion,
    PasteImage,
    Voice,
}

/// The entries of the tray menu that do something.
#[derive(Clone, Copy, Debug, PartialEq, Eq, Structural)]
pub enum MenuItem {
    Toggle,
    ReloadConfig,
    OpenLog,
    CopyLogPath,
    About,
    Quit,
    ToggleActivity,
    OpenArtifacts,
    OpenJournal,
}

/// The hotkey with an id.
pub open spec fn hotkey_of(id: i32) -> Option<HotkeyAction> {
    if id == TOGGLE_HOTKEY_ID {
        Some(HotkeyAction::Dictation)
    } else if id == FIX_GRAMMAR_HOTKEY_ID {
        Some(HotkeyAction::FixGrammar)
    } else if id == ANSWER_QUESTION_HOTKEY_ID {
        Some(HotkeyAction::AnswerQuestion)
    } else if id == PASTE_IMAGE_HOTKEY_ID {
        Some(HotkeyAction::PasteImage)
    } else if id == VOICE_HOTKEY_ID {
        Some(HotkeyAction::Voice)
    } else {
        None
    }
}

/// The menu item with an id.
pub open spec fn menu_item_of(id: usize) -> Option<MenuItem> {
    if id == MENU_TOGGLE {
        Some(MenuItem::Toggle)
    } else if id == MENU_RELOAD_CONFIG {
        Some(MenuItem::ReloadConfig)
    } else if id == MENU_OPEN_LOG {
        Some(MenuItem::OpenLog)
    } else if id == MENU_COPY_LOG_PATH {
        Some(MenuItem::CopyLogPath)
    } else if id == MENU_ABOUT {
        Some(MenuItem::About)
    } else if id == MENU_QUIT {
        Some(MenuItem::Quit)
    } else if id == MENU_TOGGLE_ACTIVITY {
        Some(MenuItem::ToggleActivity)
    } else if id == MENU_OPEN_ARTIFACTS {
        Some(MenuItem::OpenArtifacts)
    } else if id == MENU_OPEN_JOURNAL {
        Some(MenuItem::OpenJournal)
    } else {
        None
    }
}

fn find_hotkey(id: i32) -> (r: Option<HotkeyAction>)
    ensures
        r == hotkey_of(id),
{
    if id == TOGGLE_HOTKEY_ID {
        Some(HotkeyAction::Dictation)
    } else if id == FIX_GRAMMAR_HOTKEY_ID {
        Some(HotkeyAction::FixGrammar)
    } else if id == ANSWER_QUESTION_HOTKEY_ID {
        Some(HotkeyAction::AnswerQuestion)
    } else if id == PASTE_IMAGE_HOTKEY_ID {
        Some(HotkeyAction::PasteImage)
    } else if id == VOICE_HOTKEY_ID {
        Some(HotkeyAction::Voice)
    } else {
        None
    }
}

fn find_menu_item(id: usize) -> (r: Option<MenuItem>)
    ensures
        r == menu_item_of(id),
{
    if id == MENU_TOGGLE {
        Some(MenuItem::Toggle)
    } else if id == MENU_RELOAD_CONFIG {
        Some(MenuItem::ReloadConfig)
    } else if id == MENU_OPEN_LOG {
        Some(MenuItem::OpenLog)
    } else if id == MENU_COPY_LOG_PATH {
        Some(MenuItem::CopyLogPath)
    } else if id == MENU_ABOUT {
        Some(MenuItem::About)
    } else if id == MENU_QUIT {
        Some(MenuItem::Quit)
    } else if id == MENU_TOGGLE_ACTIVITY {
        Some(MenuItem::ToggleActivity)
    } else if id == MENU_OPEN_ARTIFACTS {
        Some(MenuItem::OpenArtifacts)
    } else if id == MENU_OPEN_JOURNAL {
        Some(MenuItem::OpenJournal)
    } else {
        None
    }
}

/// What a window message asks for.
#[derive(Clone, Copy, Debug, PartialEq, Eq, Structural)]
pub enum Route {
    Hotkey(HotkeyAction),
    /// Run the queued commands and report the position.
    Timer,
    TrayClick,
    TrayMenu,
    Menu(MenuItem),
    /// Clean up and end the message loop.
    Destroy,
    /// Handled, with nothing to do.
    Handled,
    /// Left to the system.
    Default,
}

/// Where a window message goes. Before the service state is there, messages
/// that need it are swallowed, or left to the system where they are commands.
pub open spec fn routed(message: u32, wparam: usize, lparam: isize, has_state: bool) -> Route {
    if message == WM_HOTKEY {
        match hotkey_of(wparam as i32) {
            Some(hotkey) => if has_state {
                Route::Hotkey(hotkey)
            } else {
                Route::Handled
            },
            None => Route::Default,
        }
    } else if message == WM_TIMER {
        if has_state {
            Route::Timer
        } else {
            Route::Handled
        }
    } else if message == WM_TRAY && lparam as u32 == WM_LBUTTONUP {
        if has_state {
            Route::TrayClick
        } else {
            Route::Handled
        }
    } else if message == WM_TRAY && lparam as u32 == WM_RBUTTONUP {
        if has_state {
            Route::TrayMenu
        } else {
            Route::Handled
        }
    } else if message == WM_COMMAND && has_state {
        match menu_item_of(wparam & 0xffff) {
            Some(item) => Route::Menu(item),
            None => Route::Default,
        }
    } else if message == WM_DESTROY {
        Route::Destroy
    } else {
        Route::Default
    }
}

/// Route a window message.
pub fn route(message: u32, wparam: usize, lparam: isize, has_state: bool) -> (r: Route)
    ensures
        r == routed(message, wparam, lparam, has_state),
{
    if message == WM_HOTKEY {
        return match find_hotkey(wparam as i32) {
            Some(hotkey) => if has_state {
                Route::Hotkey(hotkey)
            } else {
                Route::Handled
            },
            None => Route::Default,
        };
    }
    if message == WM_TIMER {
        return if has_state {
            Route::Timer
        } else {
            Route::Handled
        };
    }
    if message == WM_TRAY {
        let button: u32 = lparam as u32;
        if button == WM_LBUTTONUP {
            return if has_state {
                Route::TrayClick
            } else {
                Route::Handled
            };
        }
        if button == WM_RBUTTONUP {
            return if has_state {
                Route::TrayMenu
            } else {
                Route::Handled
            };
        }
        return Route::Default;
    }
    if message == WM_COMMAND && has_state {
        return match find_menu_item(wparam & 0xffff) {
            Some(item) => Route::Menu(item),
            None => Route::Default,
        };
    }
    if message == WM_DESTROY {
        return Route::Destroy;
    }
    Route::Default
}

/// The event for a hotkey, with the window and position it applies to.
pub fn hotkey_event(hotkey: HotkeyAction, target_hwnd: isize, x: i32, y: i32) -> (r: Win32Event)
    ensures
        r == match hotkey {
            HotkeyAction::Dictation => Win32Event::ToggleRequested { target_hwnd, x, y },
            HotkeyAction::FixGrammar => Win32Event::FixGrammarRequested { target_hwnd, x, y },
            HotkeyAction::AnswerQuestion => Win32Event::AnswerQuestionRequested {
                target_hwnd,
                x,
                y,
            },
            HotkeyAction::PasteImage => Win32Event::PasteImageRequested { target_hwnd },
            HotkeyAction::Voice => Win32Event::ToggleVoiceRequested,
        },
{
    match hotkey {
        HotkeyAction::Dictation => Win32Event::ToggleRequested { target_hwnd, x, y },
        HotkeyAction::FixGrammar => Win32Event::FixGrammarRequested { target_hwnd, x, y },
        HotkeyAction::AnswerQuestion => Win32Event::AnswerQuestionRequested { target_hwnd, x, y },
        HotkeyAction::PasteImage => Win32Event::PasteImageRequested { target_hwnd },
        HotkeyAction::Voice => Win32Event::ToggleVoiceRequested,
    }
}

/// The event for a menu item, with the window and position it applies to.
pub fn menu_event(item: MenuItem, target_hwnd: isize, x: i32, y: i32) -> (r: Win32Event)
    ensures
        r == match item {
            MenuItem::Toggle => Win32Event::ToggleRequested { target_hwnd, x, y },
            MenuItem::ReloadConfig => Win32Event::ReloadConfigRequested,
            MenuItem::OpenLog => Win32Event::OpenLogRequested,
            MenuItem::CopyLogPath => Win32Event::CopyLogPathRequested,
            MenuItem::About => Win32Event::AboutRequested,
            MenuItem::Quit => Win32Event::QuitRequested,
            MenuItem::ToggleActivity => Win32Event::ToggleActivityRequested,
            MenuItem::OpenArtifacts => Win32Event::OpenArtifactsRequested,
            MenuItem::OpenJournal => Win32Event::OpenJournalRequested,
        },
{
    match item {
        MenuItem::Toggle => Win32Event::ToggleRequested { target_hwnd, x, y },
        MenuItem::ReloadConfig => Win32Event::ReloadConfigRequested,
        MenuItem::OpenLog => Win32Event::OpenLogRequested,
        MenuItem::CopyLogPath => Win32Event::CopyLogPathRequested,
        MenuItem::About => Win32Event::AboutRequested,
        MenuItem::Quit => Win32Event::QuitRequested,
        MenuItem::ToggleActivity => Win32Event::ToggleActivityRequested,
        MenuItem::OpenArtifacts => Win32Event::OpenArtifactsRequested,
        MenuItem::OpenJournal => Win32Event::OpenJournalRequested,
    }
}

/// The window that text goes to: the foreground one, but never the service's
/// own; zero means none.
pub fn target_window(foreground: isize, service: isize) -> (r: isize)
    ensures
        r == if foreground == 0 || foreground == service {
            0
        } else {
            foreground
        },
{
    if foreground == 0 || foreground == service {
        0
    } else {
        foreground
    }
}

pub const MOD_ALT: u32 = 0x0001;

pub const MOD_CONTROL: u32 = 0x0002;

pub const MOD_SHIFT: u32 = 0x0004;

pub const MOD_WIN: u32 = 0x0008;

pub const MOD_NOREPEAT: u32 = 0x4000;

/// A global hotkey as it is registered.
#[derive(Clone, Copy, Debug, PartialEq, Eq)]
pub struct Hotkey {
    pub id: i32,
    pub modifiers: u32,
    pub key: u32,
    /// What the user is told when the registration fails, where they are.
    pub failure: Option<&'static str>,
}

/// The modifiers, the key and the failure message of a hotkey.
pub open spec fn hotkey_keys(hotkey: HotkeyAction) -> (u32, char, Option<Seq<char>>) {
    let win_shift = MOD_WIN | MOD_SHIFT | MOD_NOREPEAT;
    match hotkey {
        HotkeyAction::Dictation => (
            win_shift,
            'H',
            Some("Win+Shift+H could not be registered. Another app may already be using it."@),
        ),
        HotkeyAction::FixGrammar => (
            win_shift,
            'G',
            Some("Win+Shift+G could not be registered. Another app may already be using it."@),
        ),
        HotkeyAction::AnswerQuestion => (
            win_shift,
            'Q',
            Some("Win+Shift+Q could not be registered. Another app may already be using it."@),
        ),
        HotkeyAction::PasteImage => (MOD_CONTROL | MOD_ALT | MOD_NOREPEAT, 'V', None),
        HotkeyAction::Voice => (win_shift, 'A', None),
    }
}

/// The id that a hotkey is registered under.
pub open spec fn hotkey_id(hotkey: HotkeyAction) -> i32 {
    match hotkey {
        HotkeyAction::Dictation => TOGGLE_HOTKEY_ID,
        HotkeyAction::FixGrammar => FIX_GRAMMAR_HOTKEY_ID,
        HotkeyAction::AnswerQuestion => ANSWER_QUESTION_HOTKEY_ID,
        HotkeyAction::PasteImage => PASTE_IMAGE_HOTKEY_ID,
        HotkeyAction::Voice => VOICE_HOTKEY_ID,
    }
}

/// How a hotkey is registered.
pub fn hotkey(action: HotkeyAction) -> (r: Hotkey)
    ensures
        r.id == hotkey_id(action),
        hotkey_of(r.id) == Some(action),
        r.modifiers == hotkey_keys(action).0,
        r.key == hotkey_keys(action).1 as u32,
        match r.failure {
            Some(text) => hotkey_keys(action).2 == Some(text@),
            None => hotkey_keys(action).2 is None,
        },
{
    let win_shift: u32 = MOD_WIN | MOD_SHIFT | MOD_NOREPEAT;
    match action {
        HotkeyAction::Dictation => Hotkey {
            id: TOGGLE_HOTKEY_ID,
            modifiers: win_shift,
            key: 'H' as u32,
            failure: Some(
                "Win+Shift+H could not be registered. Another app may already be using it.",
            ),
        },
        HotkeyAction::FixGrammar => Hotkey {
            id: FIX_GRAMMAR_HOTKEY_ID,
            modifiers: win_shift,
            key: 'G' as u32,
            failure: Some(
                "Win+Shift+G could not be registered. Another app may already be using it.",
            ),
        },
        HotkeyAction::AnswerQuestion => Hotkey {
            id: ANSWER_QUESTION_HOTKEY_ID,
            modifiers: win_shift,
            key: 'Q' as u32,
            failure: Some(
                "Win+Shift+Q could not be registered. Another app may already be using it.",
            ),
        },
        HotkeyAction::PasteImage => Hotkey {
            id: PASTE_IMAGE_HOTKEY_ID,
            modifiers: MOD_CONTROL | MOD_ALT | MOD_NOREPEAT,
            key: 'V' as u32,
            failure: None,
        },
        HotkeyAction::Voice => Hotkey {
            id: VOICE_HOTKEY_ID,
            modifiers: win_shift,
            key: 'A' as u32,
            failure: None,
        },
    }
}

/// A line of the tray menu.
#[derive(Debug, PartialEq)]
pub enum MenuEntry {
    Item { item: MenuItem, label: String },
    /// A line that cannot be chosen.
    Note(String),
    Separator,
}

/// What a `MenuEntry` holds.
pub enum MenuEntryView {
    Item { item: MenuItem, label: Seq<char> },
    Note(Seq<char>),
    Separator,
}

impl View for MenuEntry {
    type V = MenuEntryView;

    open spec fn view(&self) -> MenuEntryView {
        match *self {
            MenuEntry::Item { item, label } => MenuEntryView::Item { item, label: label@ },
            MenuEntry::Note(text) => MenuEntryView::Note(text@),
            MenuEntry::Separator => MenuEntryView::Separator,
        }
    }
}

pub open spec fn menu_views(entries: Seq<MenuEntry>) -> Seq<MenuEntryView> {
    entries.map_values(|e: MenuEntry| e@)
}

/// The tray menu, top to bottom.
pub open spec fn menu_lines(active: bool, activity_running: bool, status: Seq<char>) -> Seq<
    MenuEntryView,
> {
    seq![
        MenuEntryView::Item {
            item: MenuItem::Toggle,
            label: if active {
                "Stop dictation"@
            } else {
                "Start dictation"@
            },
        },
        MenuEntryView::Separator,
        MenuEntryView::Item {
            item: MenuItem::ToggleActivity,
            label: if activity_running {
                "Pause activity tracking"@
            } else {
                "Resume activity tracking"@
            },
        },
        MenuEntryView::Note("Activity: "@ + status),
        MenuEntryView::Item { item: MenuItem::OpenArtifacts, label: "Open artifacts folder"@ },
        MenuEntryView::Item { item: MenuItem::OpenJournal, label: "Open today's journal"@ },
        MenuEntryView::Separator,
        MenuEntryView::Item { item: MenuItem::ReloadConfig, label: "Reload config"@ },
        MenuEntryView::Item { item: MenuItem::OpenLog, label: "Open log"@ },
        MenuEntryView::Item { item: MenuItem::CopyLogPath, label: "Copy log path"@ },
        MenuEntryView::Item { item: MenuItem::About, label: "About"@ },
        MenuEntryView::Separator,
        MenuEntryView::Item { item: MenuItem::Quit, label: "Quit"@ },
    ]
}

fn add_item(entries: &mut Vec<MenuEntry>, item: MenuItem, label: &str)
    ensures
        menu_views(final(entries)@) == menu_views(old(entries)@).push(
            MenuEntryView::Item { item, label: label@ },
        ),
{
    let ghost before = entries@;
    let entry = MenuEntry::Item { item, label: label.to_owned() };
    entries.push(entry);
    assert(menu_views(entries@) =~= menu_views(before).push(entry@));
}

fn add_separator(entries: &mut Vec<MenuEntry>)
    ensures
        menu_views(final(entries)@) == menu_views(old(entries)@).push(MenuEntryView::Separator),
{
    let ghost before = entries@;
    entries.push(MenuEntry::Separator);
    assert(menu_views(entries@) =~= menu_views(before).push(MenuEntryView::Separator));
}

/// The lines of the tray menu.
pub fn tray_menu(active: bool, activity_running: bool, activity_status: &str) -> (r: Vec<MenuEntry>)
    ensures
        menu_views(r@) == menu_lines(active, activity_running, activity_status@),
{
    let mut entries: Vec<MenuEntry> = Vec::new();
    add_item(
        &mut entries,
        MenuItem::Toggle,
        if active {
            "Stop dictation"
        } else {
            "Start dictation"
        },
    );
    add_separator(&mut entries);
    add_item(
        &mut entries,
        MenuItem::ToggleActivity,
        if activity_running {
            "Pause activity tracking"
        } else {
            "Resume activity tracking"
        },
    );
    let mut status: Vec<char> = chars_of("Activity: ");
    extend(&mut status, &chars_of(activity_status));
    let ghost before = entries@;
    let note = MenuEntry::Note(string_of(&status));
    entries.push(note);
    assert(menu_views(entries@) =~= menu_views(before).push(note@));
    add_item(&mut entries, MenuItem::OpenArtifacts, "Open artifacts folder");
    add_item(&mut entries, MenuItem::OpenJournal, "Open today's journal");
    add_separator(&mut entries);
    add_item(&mut entries, MenuItem::ReloadConfig, "Reload config");
    add_item(&mut entries, MenuItem::OpenLog, "Open log");
    add_item(&mut entries, MenuItem::CopyLogPath, "Copy log path");
    add_item(&mut entries, MenuItem::About, "About");
    add_separator(&mut entries);
    add_item(&mut entries, MenuItem::Quit, "Quit");
    assert(menu_views(entries@) =~= menu_lines(active, activity_running, activity_status@));
    entries
}

/// The id that a menu item is posted with.
pub fn menu_id(item: MenuItem) -> (r: usize)
    ensures
        menu_item_of(r) == Some(item),
        r <= 0xffff,
{
    match item {
        MenuItem::Toggle => MENU_TOGGLE,
        MenuItem::ReloadConfig => MENU_RELOAD_CONFIG,
        MenuItem::OpenLog => MENU_OPEN_LOG,
        MenuItem::CopyLogPath => MENU_COPY_LOG_PATH,
        MenuItem::About => MENU_ABOUT,
        MenuItem::Quit => MENU_QUIT,
        MenuItem::ToggleActivity => MENU_TOGGLE_ACTIVITY,
        MenuItem::OpenArtifacts => MENU_OPEN_ARTIFACTS,
        MenuItem::OpenJournal => MENU_OPEN_JOURNAL,
    }
}

/// A frame to present. Positions and bar levels are IEEE 754 bit patterns of
/// single precision: the library carries them and never computes with them.
#[derive(Debug, PartialEq)]
pub struct OverlayUpdate {
    pub x: u32,
    pub y: u32,
    pub visible: bool,
    pub bars: Vec<u32>,
    pub state: PillState,
    pub main_text: Option<String>,
    pub top_bar: Option<TopBarContent>,
    /// The compact pill of text actions.
    pub mini: bool,
}

/// What the application tells the service.
#[derive(Debug, PartialEq)]
pub enum Win32Command {
    SetActive(bool),
    SetKeyboardCapture(bool),
    SetEscapeCapture(bool),
    EndTyping,
    SetFollowCursor(bool),
    SetTooltip(String),
    SetActivityStatus { running: bool, status: String },
    ShowMessageBox { title: String, text: String },
    OpenLog(String),
    OpenPath(String),
    CopyText(String),
    PasteText { target_hwnd: isize, text: String },
    PastePath { target_hwnd: isize, text: String },
    InjectText { target_hwnd: isize, text: String, append_after_selection: bool },
    UpdateOverlay(OverlayUpdate),
    Shutdown,
}

/// What a `Win32Command` says.
pub enum CommandView {
    SetActive(bool),
    SetKeyboardCapture(bool),
    SetEscapeCapture(bool),
    EndTyping,
    SetFollowCursor(bool),
    SetTooltip(Seq<char>),
    SetActivityStatus { running: bool, status: Seq<char> },
    ShowMessageBox { title: Seq<char>, text: Seq<char> },
    OpenLog(Seq<char>),
    OpenPath(Seq<char>),
    CopyText(Seq<char>),
    PasteText { target_hwnd: isize, text: Seq<char> },
    PastePath { target_hwnd: isize, text: Seq<char> },
    InjectText { target_hwnd: isize, text: Seq<char>, append_after_selection: bool },
    UpdateOverlay(OverlayUpdate),
    Shutdown,
}

impl View for Win32Command {
    type V = CommandView;

    open spec fn view(&self) -> CommandView {
        match *self {
            Win32Command::SetActive(active) => CommandView::SetActive(active),
            Win32Command::SetKeyboardCapture(on) => CommandView::SetKeyboardCapture(on),
            Win32Command::SetEscapeCapture(on) => CommandView::SetEscapeCapture(on),
            Win32Command::EndTyping => CommandView::EndTyping,
            Win32Command::SetFollowCursor(on) => CommandView::SetFollowCursor(on),
            Win32Command::SetTooltip(text) => CommandView::SetTooltip(text@),
            Win32Command::SetActivityStatus { running, status } => CommandView::SetActivityStatus {
                running,
                status: status@,
            },
            Win32Command::ShowMessageBox { title, text } => CommandView::ShowMessageBox {
                title: title@,
                text: text@,
            },
            Win32Command::OpenLog(path) => CommandView::OpenLog(path@),
            Win32Command::OpenPath(path) => CommandView::OpenPath(path@),
            Win32Command::CopyText(text) => CommandView::CopyText(text@),
            Win32Command::PasteText { target_hwnd, text } => CommandView::PasteText {
                target_hwnd,
                text: text@,
            },
            Win32Command::PastePath { target_hwnd, text } => CommandView::PastePath {
                target_hwnd,
                text: text@,
            },
            Win32Command::InjectText { target_hwnd, text, append_after_selection } =>
                CommandView::InjectText { target_hwnd, text: text@, append_after_selection },
            Win32Command::UpdateOverlay(frame) => CommandView::UpdateOverlay(frame),
            Win32Command::Shutdown => CommandView::Shutdown,
        }
    }
}

/// What a command asks of the window thread.
#[derive(Debug, PartialEq)]
pub enum CommandEffect {
    Nothing,
    Capture { step: CaptureStep, cancel_only: bool },
    FlushDeadKey,
    SetTooltip(String),
    ShowMessageBox { title: String, text: String },
    OpenLog(String),
    OpenPath(String),
    CopyText(String),
    /// Paste, and report completion as a path paste or a text paste.
    Paste { target_hwnd: isize, text: String, is_path: bool },
    Inject { target_hwnd: isize, text: String, append_after_selection: bool },
    /// Close the window once this callback is over, and leave the rest of the
    /// queue and the pending frame alone.
    Close,
}

/// What the service remembers.
pub struct ServiceState {
    pub active: bool,
    pub follow_cursor: bool,
    pub activity_running: bool,
    pub activity_status: String,
    /// When tray clicks last opened the artifacts, in nanoseconds.
    pub last_artifacts_open: Option<u64>,
    pub overlay: OverlayGuard,
    pub capture: CaptureControl,
}

/// What a `ServiceState` holds.
pub struct ServiceView {
    pub active: bool,
    pub follow_cursor: bool,
    pub activity_running: bool,
    pub activity_status: Seq<char>,
    pub last_artifacts_open: Option<u64>,
    pub overlay: OverlayGuard,
    pub capture: ControlView,
}

impl View for ServiceState {
    type V = ServiceView;

    open spec fn view(&self) -> ServiceView {
        ServiceView {
            active: self.active,
            follow_cursor: self.follow_cursor,
            activity_running: self.activity_running,
            activity_status: self.activity_status@,
            last_artifacts_open: self.last_artifacts_open,
            overlay: self.overlay,
            capture: self.capture@,
        }
    }
}

impl ServiceView {
    /// The service after a command, and what the command asks for.
    pub open spec fn after(self, command: Win32Command) -> (ServiceView, CommandEffect) {
        match command {
            Win32Command::SetActive(active) => (
                ServiceView { active, ..self },
                CommandEffect::Nothing,
            ),
            Win32Command::SetKeyboardCapture(active) => {
                let (capture, step) = self.capture.with_capture(active, false);
                (
                    ServiceView { capture, ..self },
                    CommandEffect::Capture { step, cancel_only: false },
                )
            },
            Win32Command::SetEscapeCapture(active) => {
                let (capture, step) = self.capture.with_capture(active, true);
                (
                    ServiceView { capture, ..self },
                    CommandEffect::Capture { step, cancel_only: true },
                )
            },
            Win32Command::EndTyping => (
                ServiceView {
                    capture: ControlView {
                        keyboard: match self.capture.keyboard {
                            Some(k) => Some(KeyboardView { typing: false, dead_key: false, ..k }),
                            None => None,
                        },
                        ..self.capture
                    },
                    ..self
                },
                if self.capture.removal().flush_dead_key {
                    CommandEffect::FlushDeadKey
                } else {
                    CommandEffect::Nothing
                },
            ),
            Win32Command::SetFollowCursor(follow_cursor) => (
                ServiceView { follow_cursor, ..self },
                CommandEffect::Nothing,
            ),
            Win32Command::SetTooltip(tooltip) => (self, CommandEffect::SetTooltip(tooltip)),
            Win32Command::SetActivityStatus { running, status } => (
                ServiceView { activity_running: running, activity_status: status@, ..self },
                CommandEffect::Nothing,
            ),
            Win32Command::ShowMessageBox { title, text } => (
                self,
                CommandEffect::ShowMessageBox { title, text },
            ),
            Win32Command::OpenLog(path) => (self, CommandEffect::OpenLog(path)),
            Win32Command::OpenPath(path) => (self, CommandEffect::OpenPath(path)),
            Win32Command::CopyText(text) => (self, CommandEffect::CopyText(text)),
            Win32Command::PasteText { target_hwnd, text } => (
                self,
                CommandEffect::Paste { target_hwnd, text, is_path: false },
            ),
            Win32Command::PastePath { target_hwnd, text } => (
                self,
                CommandEffect::Paste { target_hwnd, text, is_path: true },
            ),
            Win32Command::InjectText { target_hwnd, text, append_after_selection } => (
                self,
                CommandEffect::Inject { target_hwnd, text, append_after_selection },
            ),
            Win32Command::UpdateOverlay(_) => (self, CommandEffect::Nothing),
            Win32Command::Shutdown => (self, CommandEffect::Close),
        }
    }
}

/// The frame to present after a command: the newest one counts.
pub open spec fn frame_after(
    pending: Option<OverlayUpdate>,
    command: Win32Command,
) -> Option<OverlayUpdate> {
    match command {
        Win32Command::UpdateOverlay(update) => Some(update),
        _ => pending,
    }
}

impl ServiceState {
    pub fn new(overlay_present: bool) -> (r: Self)
        ensures
            r@ == (ServiceView {
                active: false,
                follow_cursor: false,
                activity_running: false,
                activity_status: "activity tracking starting"@,
                last_artifacts_open: None,
                overlay: OverlayGuard { present: overlay_present, error_logged: false },
                capture: ControlView { installed: false, keyboard: None },
            }),
    {
        ServiceState {
            active: false,
            follow_cursor: false,
            activity_running: false,
            activity_status: "activity tracking starting".to_owned(),
            last_artifacts_open: None,
            overlay: OverlayGuard { present: overlay_present, error_logged: false },
            capture: CaptureControl::new(),
        }
    }

    /// Take one command off the queue. Frames only replace the pending one:
    /// a busy thread presents the newest frame and replays none.
    pub fn take_command(
        &mut self,
        command: Win32Command,
        pending: &mut Option<OverlayUpdate>,
    ) -> (r: CommandEffect)
        ensures
            (final(self)@, r) == old(self)@.after(command),
            *final(pending) == frame_after(*old(pending), command),
    {
        match command {
            Win32Command::SetActive(active) => {
                self.active = active;
                CommandEffect::Nothing
            },
            Win32Command::SetKeyboardCapture(active) => {
                let step: CaptureStep = self.capture.set_capture(active, false);
                CommandEffect::Capture { step, cancel_only: false }
            },
            Win32Command::SetEscapeCapture(active) => {
                let step: CaptureStep = self.capture.set_capture(active, true);
                CommandEffect::Capture { step, cancel_only: true }
            },
            Win32Command::EndTyping => if self.capture.end_typing() {
                CommandEffect::FlushDeadKey
            } else {
                CommandEffect::Nothing
            },
            Win32Command::SetFollowCursor(follow) => {
                self.follow_cursor = follow;
                CommandEffect::Nothing
            },
            Win32Command::SetTooltip(tooltip) => CommandEffect::SetTooltip(tooltip),
            Win32Command::SetActivityStatus { running, status } => {
                self.activity_running = running;
                self.activity_status = status;
                CommandEffect::Nothing
            },
            Win32Command::ShowMessageBox { title, text } => CommandEffect::ShowMessageBox {
                title,
                text,
            },
            Win32Command::OpenLog(path) => CommandEffect::OpenLog(path),
            Win32Command::OpenPath(path) => CommandEffect::OpenPath(path),
            Win32Command::CopyText(text) => CommandEffect::CopyText(text),
            Win32Command::PasteText { target_hwnd, text } => CommandEffect::Paste {
                target_hwnd,
                text,
                is_path: false,
            },
            Win32Command::PastePath { target_hwnd, text } => CommandEffect::Paste {
                target_hwnd,
                text,
                is_path: true,
            },
            Win32Command::InjectText { target_hwnd, text, append_after_selection } =>
                CommandEffect::Inject { target_hwnd, text, append_after_selection },
            Win32Command::UpdateOverlay(update) => {
                *pending = Some(update);
                CommandEffect::Nothing
            },
            Win32Command::Shutdown => CommandEffect::Close,
        }
    }

    /// A click on the tray icon; true when the artifacts open now. Further
    /// clicks within the pause do nothing.
    pub fn tray_click(&mut self, now_ns: u64) -> (r: bool)
        ensures
            r == match old(self)@.last_artifacts_open {
                Some(last) => now_ns - last >= ARTIFACTS_PAUSE_NS,
                None => true,
            },
            final(self)@ == (ServiceView {
                last_artifacts_open: if r {
                    Some(now_ns)
                } else {
                    old(self)@.last_artifacts_open
                },
                ..old(self)@
            }),
    {
        let open: bool = match self.last_artifacts_open {
            Some(last) => now_ns >= last && now_ns - last >= ARTIFACTS_PAUSE_NS,
            None => true,
        };
        if open {
            self.last_artifacts_open = Some(now_ns);
        }
        open
    }

    /// Whether the timer reports where the input is.
    pub fn reports_position(&self) -> (r: bool)
        ensures
            r == (self@.active || self@.follow_cursor),
    {
        self.active || self.follow_cursor
    }
}

/// The frame to present after a run of commands.
pub open spec fn newest_frame(
    pending: Option<OverlayUpdate>,
    commands: Seq<Win32Command>,
) -> Option<OverlayUpdate>
    decreases commands.len(),
{
    if commands.len() == 0 {
        pending
    } else {
        frame_after(newest_frame(pending, commands.drop_last()), commands.last())
    }
}

/// One pass over the queued commands.
pub struct CommandDrain {
    pending: Option<OverlayUpdate>,
    closing: bool,
}

/// What a `CommandDrain` holds.
pub struct DrainView {
    /// The newest frame so far.
    pub pending: Option<OverlayUpdate>,
    /// A shutdown was taken: the rest of the queue is left alone.
    pub closing: bool,
}

impl View for CommandDrain {
    type V = DrainView;

    closed spec fn view(&self) -> DrainView {
        DrainView { pending: self.pending, closing: self.closing }
    }
}

impl DrainView {
    pub open spec fn start() -> DrainView {
        DrainView { pending: None, closing: false }
    }

    /// The next command of the queue, and what it asks for. Behind a shutdown
    /// nothing is taken.
    pub open spec fn taking(self, service: ServiceView, command: Win32Command) -> (
        DrainView,
        ServiceView,
        Option<CommandEffect>,
    ) {
        if self.closing {
            (self, service, None)
        } else {
            let (next, effect) = service.after(command);
            (
                DrainView {
                    pending: frame_after(self.pending, command),
                    closing: command is Shutdown,
                },
                next,
                Some(effect),
            )
        }
    }

    /// The frame to present once the queue is empty: none on the way out.
    pub open spec fn frame(self) -> Option<OverlayUpdate> {
        if self.closing {
            None
        } else {
            self.pending
        }
    }
}

impl CommandDrain {
    pub fn new() -> (r: Self)
        ensures
            r@ == DrainView::start(),
    {
        CommandDrain { pending: None, closing: false }
    }

    /// Take the next command, or nothing behind a shutdown.
    pub fn take(&mut self, service: &mut ServiceState, command: Win32Command) -> (r: Option<
        CommandEffect,
    >)
        ensures
            (final(self)@, final(service)@, r) == old(self)@.taking(old(service)@, command),
    {
        if self.closing {
            return None;
        }
        if let Win32Command::Shutdown = &command {
            self.closing = true;
        }
        Some(service.take_command(command, &mut self.pending))
    }

    /// Whether the rest of the queue is left alone.
    pub fn is_closing(&self) -> (r: bool)
        ensures
            r == self@.closing,
    {
        self.closing
    }

    /// The frame to present.
    pub fn frame(self) -> (r: Option<OverlayUpdate>)
        ensures
            r == self@.frame(),
    {
        if self.closing {
            None
        } else {
            self.pending
        }
    }
}

/// A queue taken from its head: the pass, the service and the effects in
/// order. `carried` is what carrying an effect out makes of the service.
pub open spec fn drained(
    service: ServiceView,
    commands: Seq<Win32Command>,
    carried: spec_fn(ServiceView, CommandEffect) -> ServiceView,
) -> (DrainView, ServiceView, Seq<CommandEffect>)
    decreases commands.len(),
{
    if commands.len() == 0 {
        (DrainView::start(), service, Seq::empty())
    } else {
        let (drain, before, effects) = drained(service, commands.drop_last(), carried);
        match drain.taking(before, commands.last()) {
            (next, after, Some(effect)) => (next, carried(after, effect), effects.push(effect)),
            (next, after, None) => (next, after, effects),
        }
    }
}

/// Without a shutdown every command of a queue has its effect, in order, and
/// the newest frame is presented.
pub proof fn whole_queues_are_drained(
    service: ServiceView,
    commands: Seq<Win32Command>,
    carried: spec_fn(ServiceView, CommandEffect) -> ServiceView,
)
    requires
        forall|j: int| 0 <= j < commands.len() ==> !((#[trigger] commands[j]) is Shutdown),
    ensures
        !drained(service, commands, carried).0.closing,
        drained(service, commands, carried).0.frame() == newest_frame(None, commands),
        drained(service, commands, carried).2.len() == commands.len(),
    decreases commands.len(),
{
    if commands.len() > 0 {
        let rest = commands.drop_last();
        assert forall|j: int| 0 <= j < rest.len() implies !((#[trigger] rest[j]) is Shutdown) by {
            assert(rest[j] == commands[j]);
        }
        whole_queues_are_drained(service, rest, carried);
        assert(!(commands[commands.len() - 1] is Shutdown));
    }
}

/// A shutdown leaves the rest of the queue and the pending frame alone: the
/// effects are those of the commands before it and one last close, the service
/// is what these leave, and no frame is presented.
pub proof fn shutdowns_end_the_queue(
    service: ServiceView,
    commands: Seq<Win32Command>,
    carried: spec_fn(ServiceView, CommandEffect) -> ServiceView,
    i: int,
)
    requires
        0 <= i < commands.len(),
        commands[i] is Shutdown,
        forall|j: int| 0 <= j < i ==> !((#[trigger] commands[j]) is Shutdown),
    ensures
        ({
            let (drain, after, effects) = drained(service, commands, carried);
            let (_, before, earlier) = drained(service, commands.take(i), carried);
            &&& drain.closing
            &&& drain.frame() is None
            &&& after == carried(before, CommandEffect::Close)
            &&& effects == earlier.push(CommandEffect::Close)
        }),
    decreases commands.len(),
{
    let rest = commands.drop_last();
    if i < rest.len() {
        assert(rest[i] == commands[i]);
        assert forall|j: int| 0 <= j < i implies !((#[trigger] rest[j]) is Shutdown) by {
            assert(rest[j] == commands[j]);
        }
        shutdowns_end_the_queue(service, rest, carried, i);
        assert(rest.take(i) =~= commands.take(i));
    } else {
        assert(rest =~= commands.take(i));
        assert forall|j: int| 0 <= j < rest.len() implies !((#[trigger] rest[j]) is Shutdown) by {
            assert(rest[j] == commands[j]);
        }
        whole_queues_are_drained(service, rest, carried);
    }
}

/// Whatever else is queued behind it, the last frame of a backlog is the one
/// that is presented.
pub proof fn backlogs_present_the_newest_frame(
    pending: Option<OverlayUpdate>,
    commands: Seq<Win32Command>,
    i: int,
)
    requires
        0 <= i < commands.len(),
        commands[i] is UpdateOverlay,
        forall|j: int| i < j < commands.len() ==> !((#[trigger] commands[j]) is UpdateOverlay),
    ensures
        newest_frame(pending, commands) == Some(commands[i]->UpdateOverlay_0),
    decreases commands.len(),
{
    if i < commands.len() - 1 {
        assert(!(commands[commands.len() - 1] is UpdateOverlay));
        let rest = commands.drop_last();
        assert forall|j: int|
            i < j < rest.len() implies !((#[trigger] rest[j]) is UpdateOverlay) by {
            assert(rest[j] == commands[j]);
        }
        backlogs_present_the_newest_frame(pending, rest, i);
    }
}

/// Whether there is an overlay window, and whether its failure is in the log.
#[derive(Clone, Copy, Debug, PartialEq, Eq, Structural)]
pub struct OverlayGuard {
    pub present: bool,
    pub error_logged: bool,
}

/// What happened to the overlay in one pass over the queue, and what of it is
/// to be logged.
#[derive(Clone, Copy, Debug, PartialEq, Eq, Structural)]
pub struct OverlayPass {
    pub tried_creation: bool,
    pub tried_update: bool,
    /// The window could not be created again.
    pub log_creation: bool,
    /// The frame could not be presented, for the first time.
    pub log_update: bool,
    /// A visible frame has no window, and no log line says so yet.
    pub log_gap: bool,
}

impl OverlayPass {
    /// Log lines that complain.
    pub open spec fn complaints(self) -> nat {
        (if self.log_creation {
            1nat
        } else {
            0
        }) + (if self.log_update {
            1nat
        } else {
            0
        }) + (if self.log_gap {
            1nat
        } else {
            0
        })
    }
}

impl OverlayGuard {
    /// A missing window is created again for a visible frame, once until the
    /// failure is out of the log's way.
    pub open spec fn recreates(self, requested: Option<bool>) -> bool {
        !self.present && requested == Some(true) && !self.error_logged
    }

    /// After the attempt to create the window again.
    pub open spec fn after_creation(self, ok: bool) -> OverlayGuard {
        OverlayGuard { present: ok, error_logged: !ok }
    }

    /// After the attempt to present a frame: the first failure is logged.
    pub open spec fn after_update(self, ok: bool) -> OverlayGuard {
        OverlayGuard { error_logged: !ok, ..self }
    }

    /// After looking for a gap: a visible frame without a window is logged
    /// once, and a frame that shows nothing makes the next gap count again.
    pub open spec fn after_gap(self, requested: Option<bool>) -> OverlayGuard {
        match requested {
            Some(visible) if !self.present => OverlayGuard { error_logged: visible, ..self },
            _ => self,
        }
    }

    /// One pass over the queue, given whether a frame was requested and
    /// visible, and how creation and update turn out where they are tried.
    pub open spec fn pass(self, requested: Option<bool>, created: bool, updated: bool) -> (
        OverlayGuard,
        OverlayPass,
    ) {
        let tried_creation = self.recreates(requested);
        let a = if tried_creation {
            self.after_creation(created)
        } else {
            self
        };
        let tried_update = requested is Some && a.present;
        let b = if tried_update {
            a.after_update(updated)
        } else {
            a
        };
        let c = b.after_gap(requested);
        (
            c,
            OverlayPass {
                tried_creation,
                tried_update,
                log_creation: tried_creation && !created,
                log_update: tried_update && !updated && !a.error_logged,
                log_gap: c.error_logged && !b.error_logged,
            },
        )
    }

    /// Whether to try and create the missing window for this frame.
    pub fn wants_creation(&self, requested: Option<bool>) -> (r: bool)
        ensures
            r == self.recreates(requested),
    {
        match requested {
            Some(visible) => !self.present && visible && !self.error_logged,
            None => false,
        }
    }

    /// Whether there is a frame, and a window to present it in, given how a
    /// wanted creation turned out.
    pub fn wants_update(&self, requested: Option<bool>, created: bool) -> (r: bool)
        ensures
            forall|updated: bool|
                r == (#[trigger] self.pass(requested, created, updated)).1.tried_update,
    {
        let present: bool = if self.wants_creation(requested) {
            created
        } else {
            self.present
        };
        requested.is_some() && present
    }

    fn creation_tried(&mut self, ok: bool)
        ensures
            *final(self) == old(self).after_creation(ok),
    {
        self.present = ok;
        self.error_logged = !ok;
    }

    fn update_tried(&mut self, ok: bool) -> (r: bool)
        ensures
            *final(self) == old(self).after_update(ok),
            r == (!ok && !old(self).error_logged),
    {
        let complain: bool = !ok && !self.error_logged;
        self.error_logged = !ok;
        complain
    }

    fn note_gap(&mut self, requested: Option<bool>) -> (r: bool)
        ensures
            *final(self) == old(self).after_gap(requested),
            r == (final(self).error_logged && !old(self).error_logged),
    {
        match requested {
            Some(visible) => {
                if self.present {
                    return false;
                }
                let complain: bool = visible && !self.error_logged;
                self.error_logged = visible;
                complain
            },
            None => false,
        }
    }

    /// Settle a pass: the window was created again where `wants_creation`
    /// asked for it, then the frame was presented where `wants_update` did.
    /// What was not asked for does not count.
    pub fn settle(&mut self, requested: Option<bool>, created: bool, updated: bool) -> (r:
        OverlayPass)
        ensures
            (*final(self), r) == old(self).pass(requested, created, updated),
    {
        let tried_creation: bool = self.wants_creation(requested);
        let tried_update: bool = self.wants_update(requested, created);
        if tried_creation {
            self.creation_tried(created);
        }
        let log_update: bool = if tried_update {
            self.update_tried(updated)
        } else {
            false
        };
        let log_gap: bool = self.note_gap(requested);
        OverlayPass {
            tried_creation,
            tried_update,
            log_creation: tried_creation && !created,
            log_update,
            log_gap,
        }
    }
}

/// A missing pill is never silent: when a pass ends without a window although
/// a visible frame was requested, its failure is in the log. It got there in
/// this pass or stands there from an earlier one, and never twice.
pub proof fn missing_overlays_are_logged_once(g: OverlayGuard, created: bool, updated: bool)
    ensures
        ({
            let (next, pass) = g.pass(Some(true), created, updated);
            &&& !next.present ==> next.error_logged
            &&& !next.present && !g.error_logged ==> pass.complaints() == 1
            &&& g.error_logged && !g.present ==> pass.complaints() == 0 && !pass.tried_creation
            &&& pass.complaints() <= 1
        }),
{
}

/// A frame that shows nothing, or a successful update, makes room for the
/// next attempt and the next complaint.
pub proof fn quiet_frames_reset_the_complaint(g: OverlayGuard, created: bool, updated: bool)
    requires
        !g.present,
    ensures
        g.pass(Some(false), created, updated).0 == (OverlayGuard {
            present: false,
            error_logged: false,
        }),
        g.pass(Some(false), created, updated).0.recreates(Some(true)),
{
}

/// Tenths of a logical pixel between the cursor and the overlay.
pub const CURSOR_OVERLAY_GAP: i64 = 80;

/// Where the overlay goes when there is no cursor.
pub const FALLBACK_POSITION: i32 = 120;

/// Parts of a pixel that positions are computed in: logical tenths at any
/// number of dots per inch are whole.
pub const PARTS_PER_PIXEL: i64 = 960;

/// The part of a monitor that applications may use, in pixels.
#[derive(Clone, Copy, Debug, PartialEq, Eq, Structural)]
pub struct WorkArea {
    pub left: i32,
    pub top: i32,
    pub right: i32,
    pub bottom: i32,
}

/// `value` brought into `min..=max`; `min` where there is no such range.
pub open spec fn clamped(value: int, min: int, max: int) -> int {
    if value < min || min > max {
        min
    } else if value > max {
        max
    } else {
        value
    }
}

/// Where a span of `extent` goes on one axis: behind the cursor, before it
/// where it would pass `end`, and not outside `min` and `end`.
pub open spec fn span_at(cursor: int, extent: int, gap: int, min: int, end: int) -> int {
    let behind = cursor + gap;
    clamped(
        if behind + extent > end {
            cursor - extent - gap
        } else {
            behind
        },
        min,
        end - extent,
    )
}

/// The nearest whole pixel, halves away from zero, within 32 bits.
pub open spec fn pixel_of(parts: int) -> int {
    let n = if parts >= 0 {
        (parts + 480) / 960
    } else {
        -((480 - parts) / 960)
    };
    clamped(n, i32::MIN as int, i32::MAX as int)
}

/// Where the overlay's pill goes, in parts of a pixel: near the cursor, with
/// room for the bar above it.
pub open spec fn pill_at(cursor: (i32, i32), dpi: int, work: Option<WorkArea>) -> (int, int) {
    let gap = CURSOR_OVERLAY_GAP * dpi;
    match work {
        Some(area) => (
            span_at(
                cursor.0 * PARTS_PER_PIXEL,
                WIDTH * dpi,
                gap,
                area.left * PARTS_PER_PIXEL,
                area.right * PARTS_PER_PIXEL,
            ),
            span_at(
                cursor.1 * PARTS_PER_PIXEL,
                PILL_HEIGHT * dpi,
                gap,
                area.top * PARTS_PER_PIXEL + MAIN_TOP * dpi,
                area.bottom * PARTS_PER_PIXEL,
            ),
        ),
        None => (cursor.0 * PARTS_PER_PIXEL + gap, cursor.1 * PARTS_PER_PIXEL + gap),
    }
}

fn clamp_to_work_area(value: i64, min: i64, max: i64) -> (r: i64)
    ensures
        r == clamped(value as int, min as int, max as int),
{
    if min > max || value < min {
        min
    } else if value > max {
        max
    } else {
        value
    }
}

fn place_span(cursor: i64, extent: i64, gap: i64, min: i64, end: i64) -> (r: i64)
    requires
        -0x1000_0000_0000_0000 <= cursor <= 0x1000_0000_0000_0000,
        0 <= extent <= 0x1000_0000_0000_0000,
        0 <= gap <= 0x1000_0000_0000_0000,
        -0x1000_0000_0000_0000 <= end <= 0x1000_0000_0000_0000,
    ensures
        r == span_at(cursor as int, extent as int, gap as int, min as int, end as int),
{
    let behind: i64 = cursor + gap;
    let wanted: i64 = if behind + extent > end {
        cursor - extent - gap
    } else {
        behind
    };
    clamp_to_work_area(wanted, min, end - extent)
}

fn nearest_pixel(parts: i64) -> (r: i32)
    requires
        -0x4000_0000_0000_0000 <= parts <= 0x4000_0000_0000_0000,
    ensures
        r == pixel_of(parts as int),
{
    let n: i64 = if parts >= 0 {
        (parts + 480) / 960
    } else {
        -((480 - parts) / 960)
    };
    if n < i32::MIN as i64 {
        i32::MIN
    } else if n > i32::MAX as i64 {
        i32::MAX
    } else {
        n as i32
    }
}

/// Where to put the overlay's pill, from the cursor, the monitor's dots per
/// inch and its work area, each where it could be had.
pub fn active_input_position(
    cursor: Option<(i32, i32)>,
    dpi: Option<u32>,
    work: Option<WorkArea>,
) -> (r: (i32, i32))
    ensures
        ({
            let dots = match dpi {
                Some(dpi) => effective_dpi(dpi),
                None => 96,
            };
            match cursor {
                Some(cursor) => r.0 == pixel_of(pill_at(cursor, dots, work).0) && r.1 == pixel_of(
                    pill_at(cursor, dots, work).1,
                ),
                None => r == (FALLBACK_POSITION, FALLBACK_POSITION),
            }
        }),
{
    let (x, y) = match cursor {
        Some(point) => point,
        None => {
            return (FALLBACK_POSITION, FALLBACK_POSITION);
        },
    };
    let dots: i64 = match dpi {
        Some(0) | None => 96,
        Some(dpi) => dpi as i64,
    };
    let cursor_x: i64 = x as i64 * PARTS_PER_PIXEL;
    let cursor_y: i64 = y as i64 * PARTS_PER_PIXEL;
    let gap: i64 = CURSOR_OVERLAY_GAP * dots;
    match work {
        Some(area) => {
            let left: i64 = area.left as i64 * PARTS_PER_PIXEL;
            let right: i64 = area.right as i64 * PARTS_PER_PIXEL;
            let top: i64 = area.top as i64 * PARTS_PER_PIXEL;
            let bottom: i64 = area.bottom as i64 * PARTS_PER_PIXEL;
            let left_edge: i64 = place_span(cursor_x, WIDTH * dots, gap, left, right);
            let top_edge: i64 = place_span(
                cursor_y,
                PILL_HEIGHT * dots,
                gap,
                top + MAIN_TOP * dots,
                bottom,
            );
            (nearest_pixel(left_edge), nearest_pixel(top_edge))
        },
        None => (nearest_pixel(cursor_x + gap), nearest_pixel(cursor_y + gap)),
    }
}

/// An overlay that fits on its monitor stays inside the work area, with its
/// bar above the pill.
pub proof fn overlays_stay_on_their_monitor(cursor: (i32, i32), dpi: int, area: WorkArea)
    requires
        dpi > 0,
        area.left * PARTS_PER_PIXEL + WIDTH * dpi <= area.right * PARTS_PER_PIXEL,
        area.top * PARTS_PER_PIXEL + MAIN_TOP * dpi + PILL_HEIGHT * dpi <= area.bottom
            * PARTS_PER_PIXEL,
    ensures
        ({
            let (x, y) = pill_at(cursor, dpi, Some(area));
            &&& area.left * PARTS_PER_PIXEL <= x
            &&& x + WIDTH * dpi <= area.right * PARTS_PER_PIXEL
            &&& area.top * PARTS_PER_PIXEL <= y - MAIN_TOP * dpi
            &&& y + PILL_HEIGHT * dpi <= area.bottom * PARTS_PER_PIXEL
        }),
{
}

/// While typing, Backspace is kept from the application. It reports exactly
/// one request, or, behind a dead key, drops that key and reports nothing. Held
/// down it goes on doing so.
pub proof fn backspace_asks_or_drops_the_dead_key(k: KeyboardView, vk: u32)
    requires
        vk < 256,
        k.captured.len() == 256,
        k.accepting,
        !k.cancel_only,
        k.typing,
        meaning(vk, modifiers_in(k.with_key(vk, true).keys), true) is Backspace,
    ensures
        ({
            let (next, step) = k.key_step(vk, true);
            &&& step matches Some(outcome) && {
                &&& outcome.captured
                &&& !k.dead_key ==> outcome.events.len() == 1
                &&& !k.dead_key ==> outcome.events[0] is BackspaceRequested
                &&& !k.dead_key ==> !outcome.flush_dead_key
                &&& k.dead_key ==> outcome.events.len() == 0
                &&& k.dead_key ==> outcome.flush_dead_key
            }
            &&& !next.dead_key
            &&& next.typing
            &&& next.captured[vk as int]
        }),
{
}

/// The keys that steer a session are kept from the application and report
/// themselves once, when they go down: Enter and Escape end typing, a line
/// break leaves it as it is, and a pending dead key is flushed.
pub proof fn session_keys_report_themselves(k: KeyboardView, vk: u32)
    requires
        vk < 256,
        k.captured.len() == 256,
        k.accepting,
        !k.down[vk as int],
    ensures
        ({
            let action = meaning(vk, modifiers_in(k.with_key(vk, true).keys), k.typing);
            let (next, step) = k.key_step(vk, true);
            &&& action is Cancel ==> (step matches Some(outcome) && {
                &&& outcome.captured
                &&& outcome.events.len() == 1 && outcome.events[0] is CancelRequested
                &&& outcome.flush_dead_key == k.dead_key
                &&& !next.typing && !next.dead_key && next.captured[vk as int]
            })
            &&& action is Submit && !k.cancel_only ==> (step matches Some(outcome) && {
                &&& outcome.captured
                &&& outcome.events.len() == 1 && outcome.events[0] is SubmitRequested
                &&& outcome.flush_dead_key == k.dead_key
                &&& !next.typing && !next.dead_key && next.captured[vk as int]
            })
            &&& action is LineBreak && !k.cancel_only ==> (step matches Some(outcome) && {
                &&& outcome.captured
                &&& outcome.events.len() == 1 && outcome.events[0] is LineBreakRequested
                &&& outcome.flush_dead_key == k.dead_key
                &&& next.typing == k.typing && !next.dead_key && next.captured[vk as int]
            })
            &&& action is Paste && !k.cancel_only ==> (step matches Some(outcome) && {
                &&& outcome.captured
                &&& outcome.events.last() is PasteTextRequested
                &&& k.typing ==> outcome.events.len() == 1
                &&& !k.typing ==> outcome.events.len() == 2 && outcome.events[0] is TypingStarted
                &&& outcome.flush_dead_key == k.dead_key
                &&& next.typing && !next.dead_key && next.captured[vk as int]
            })
        }),
{
}

/// A press that may be text waits for its translation and changes nothing but
/// the key table until then.
pub proof fn text_waits_for_its_translation(k: KeyboardView, vk: u32)
    requires
        vk < 256,
        k.accepting,
        !k.cancel_only,
    ensures
        ({
            let action = meaning(vk, modifiers_in(k.with_key(vk, true).keys), k.typing);
            let (next, step) = k.key_step(vk, true);
            &&& step is None <==> action is Text
            &&& action is Text ==> next == k.with_key(vk, true)
        }),
{
}

/// Text that a press spells is reported in full and kept from the application;
/// the first of it starts typing. A dead key starts typing too and waits for
/// the key behind it. A press that spells nothing belongs to the application.
pub proof fn text_is_reported_in_full(k: KeyboardView, vk: u32, text: String)
    requires
        vk < 256,
        k.captured.len() == 256,
    ensures
        ({
            let (next, outcome) = k.text_step(vk, Translation::Text(text));
            &&& outcome.captured && !outcome.flush_dead_key
            &&& next.typing && !next.dead_key && next.captured[vk as int]
            &&& text@.len() > 0 ==> outcome.events.last() == Win32Event::TextInput(text)
            &&& outcome.events.len() == (if k.typing {
                0int
            } else {
                1int
            }) + (if text@.len() > 0 {
                1int
            } else {
                0int
            })
            &&& !k.typing ==> outcome.events[0] is TypingStarted
        }),
        ({
            let (next, outcome) = k.text_step(vk, Translation::DeadKey);
            &&& outcome.captured && !outcome.flush_dead_key
            &&& next.typing && next.dead_key && next.captured[vk as int]
            &&& k.typing ==> outcome.events.len() == 0
            &&& !k.typing ==> outcome.events.len() == 1 && outcome.events[0] is TypingStarted
        }),
        ({
            let (next, outcome) = k.text_step(vk, Translation::Nothing);
            &&& next == k
            &&& !outcome.captured && !outcome.flush_dead_key && outcome.events.len() == 0
        }),
{
}

/// What the keys mean, by their codes: a bare Escape cancels and a bare Enter
/// submits, or breaks the line with Shift, whether typing or not; Backspace
/// acts only while typing; Ctrl+V pastes; letters, digits, the space bar and
/// the number pad's digits type, also with Shift and with AltGr; the Windows
/// key makes everything a shortcut, and arrows, Tab and function keys are
/// never captured.
pub proof fn keys_mean_what_they_say(vk: u32, m: ModifierState, typing: bool)
    ensures
        ({
            let action = meaning(vk, m, typing);
            let bare = !m.control && !m.alt && !m.windows;
            let types = vk == 0x20 || 0x30 <= vk <= 0x39 || 0x41 <= vk <= 0x5a || 0x60 <= vk
                <= 0x69;
            &&& vk == 0x1b && bare ==> action is Cancel
            &&& vk == 0x0d && bare && !m.shift ==> action is Submit
            &&& vk == 0x0d && bare && m.shift ==> action is LineBreak
            &&& vk == 0x08 && bare && typing ==> action is Backspace
            &&& vk == 0x08 && !typing ==> action is Pass
            &&& vk == 0x56 && m.control && !m.alt && !m.windows ==> action is Paste
            &&& types && bare ==> action is Text
            &&& types && m.right_alt && m.alt && !m.windows ==> action is Text
            &&& m.windows ==> action is Pass
            &&& action is Text ==> !m.windows && (bare || m.right_alt)
            &&& action is Cancel ==> vk == 0x1b && bare
            &&& action is Submit ==> vk == 0x0d && bare && !m.shift
            &&& action is LineBreak ==> vk == 0x0d && bare && m.shift
            &&& action is Backspace ==> vk == 0x08 && bare && typing
            &&& action is Paste ==> vk == 0x56 && m.control && !m.alt && !m.windows
            &&& vk == 0x09 || 0x21 <= vk <= 0x2f || 0x70 <= vk <= 0x87 ==> action is Pass
        }),
{
}

/// The key table follows the keys: a press sets the key's high bit and a
/// release clears it, a lock turns over once for each press, and no other key
/// but the modifier that it stands for changes.
pub proof fn key_table_follows_the_keys(k: KeyboardView, vk: u32, is_down: bool, other: u32)
    requires
        vk < 256,
        other < 256,
        other != vk,
        k.keys.len() == 256,
        k.down.len() == 256,
    ensures
        ({
            let next = k.with_key(vk, is_down);
            let lock = vk == 0x14 || vk == 0x90 || vk == 0x91;
            let stands_for = (other == 0x10 && 0xa0 <= vk <= 0xa1) || (other == 0x11 && 0xa2 <= vk
                <= 0xa3) || (other == 0x12 && 0xa4 <= vk <= 0xa5);
            &&& next.down[vk as int] == is_down
            &&& next.down[other as int] == k.down[other as int]
            &&& is_down == (next.keys[vk as int] >= 128)
            &&& (next.keys[vk as int] % 2 != k.keys[vk as int] % 2) == (lock && is_down
                && !k.down[vk as int])
            &&& !stands_for ==> next.keys[other as int] == k.keys[other as int]
            &&& next.captured == k.captured
            &&& next.accepting == k.accepting && next.cancel_only == k.cancel_only
            &&& next.typing == k.typing && next.dead_key == k.dead_key
        }),
{
}

/// A modifier is down while either key of its pair is.
pub proof fn modifiers_follow_their_pairs(k: KeyboardView, vk: u32, is_down: bool)
    requires
        0xa0 <= vk <= 0xa5,
        k.keys.len() == 256,
        k.down.len() == 256,
    ensures
        ({
            let next = k.with_key(vk, is_down);
            let m = modifiers_in(next.keys);
            &&& vk <= 0xa1 ==> m.shift == (next.down[0xa0] || next.down[0xa1])
            &&& 0xa2 <= vk <= 0xa3 ==> m.control == (next.down[0xa2] || next.down[0xa3])
            &&& 0xa4 <= vk ==> m.alt == (next.down[0xa4] || next.down[0xa5])
            &&& vk == 0xa5 ==> m.right_alt == is_down
        }),
{
}

/// A modifier shows while its key byte has the high bit, and either Windows
/// key counts.
pub proof fn modifiers_show_in_the_table(keys: Seq<u8>)
    ensures
        ({
            let m = modifiers_in(keys);
            &&& m.shift <==> keys[0x10] >= 0x80
            &&& m.control <==> keys[0x11] >= 0x80
            &&& m.alt <==> keys[0x12] >= 0x80
            &&& m.right_alt <==> keys[0xa5] >= 0x80
            &&& m.windows <==> keys[0x5b] >= 0x80 || keys[0x5c] >= 0x80
        }),
{
}

/// Capture begins with the keyboard as it is: a key counts as down exactly
/// when it is, locks stay as they are, nothing is captured yet, and nothing is
/// being typed.
pub proof fn capture_begins_with_the_keyboard(
    keys: Seq<u8>,
    down: Seq<bool>,
    cancel_only: bool,
    i: int,
)
    requires
        keys.len() == 256,
        down.len() == 256,
        0 <= i < 256,
    ensures
        ({
            let k = keyboard_at_start(keys, down, cancel_only);
            &&& (k.keys[i] >= 128) == down[i]
            &&& k.keys[i] % 2 == keys[i] % 2
            &&& k.down == down
            &&& !k.captured[i]
            &&& k.accepting && k.cancel_only == cancel_only
            &&& !k.typing && !k.dead_key
        }),
{
}

/// Turning capture on asks for a hook where there is none and otherwise makes
/// the hook accept keys again, in the mode asked for. Turning it off accepts
/// no more keys, ends typing, flushes a pending dead key, and takes the hook
/// away at once where no captured key is still down.
pub proof fn capture_turns_on_and_off(c: ControlView, cancel_only: bool)
    ensures
        ({
            let (on, step) = c.with_capture(true, cancel_only);
            &&& on.installed == c.installed
            &&& !c.installed ==> step is Install && on == c
            &&& c.installed ==> step is Nothing
            &&& c.installed && c.keyboard is Some ==> (on.keyboard matches Some(k) && {
                &&& k.accepting && k.cancel_only == cancel_only
                &&& k.captured == c.keyboard->0.captured
                &&& k.typing == c.keyboard->0.typing && k.dead_key == c.keyboard->0.dead_key
            })
        }),
        ({
            let (off, step) = c.with_capture(false, cancel_only);
            let held = c.keyboard matches Some(k) && exists|i: int|
                0 <= i < k.captured.len() && #[trigger] k.captured[i];
            &&& off.keyboard matches Some(k) ==> !k.accepting && !k.typing && !k.dead_key
                && k.captured == c.keyboard->0.captured
            &&& step matches CaptureStep::Release { flush_dead_key, removal } && {
                &&& flush_dead_key == (c.keyboard matches Some(k) && k.dead_key)
                &&& removal is Some == (c.installed && !held)
                &&& removal matches Some(gone) ==> gone.unhook && !gone.flush_dead_key
            }
            &&& c.installed && !held ==> !off.installed && off.keyboard is None
        }),
{
    let (off, step) = c.with_capture(false, cancel_only);
    if let Some(k) = c.keyboard {
        if KeyboardHookState::all_released(k.captured) {
            assert(!exists|i: int| 0 <= i < k.captured.len() && #[trigger] k.captured[i]);
        }
    }
}

/// Code points up to U+FFFF stand for themselves in UTF-16, the others are
/// read back from their pairs, and what follows is read as if it stood alone.
pub proof fn characters_are_read_back(c: char, rest: Seq<u16>)
    ensures
        (c as u32) < 0x10000 ==> decoded(seq![c as u16] + rest) == seq![c] + decoded(rest),
        (c as u32) >= 0x10000 ==> ({
            let lead = (0xd800 + (c as u32 - 0x10000) / 0x400) as u16;
            let trail = (0xdc00 + (c as u32 - 0x10000) % 0x400) as u16;
            decoded(seq![lead, trail] + rest) == seq![c] + decoded(rest)
        }),
{
    if (c as u32) < 0x10000 {
        let units = seq![c as u16] + rest;
        assert(units[0] == c as u16);
        assert(c as u16 as int == c as int);
        assert(units.skip(1) =~= rest);
        assert(units[0] as char == c);
    } else {
        let lead = (0xd800 + (c as u32 - 0x10000) / 0x400) as u16;
        let trail = (0xdc00 + (c as u32 - 0x10000) % 0x400) as u16;
        let units = seq![lead, trail] + rest;
        assert(units[0] == lead && units[1] == trail);
        assert(units.skip(2) =~= rest);
        assert(lead as int == 0xd800 + (c as int - 0x10000) / 0x400);
        assert(trail as int == 0xdc00 + (c as int - 0x10000) % 0x400);
        assert(0x10000 + (lead - 0xd800) * 0x400 + (trail - 0xdc00) == c as int);
    }
}

/// A surrogate without its partner reads as U+FFFD and takes nothing else with
/// it.
pub proof fn lone_surrogates_are_marked(unit: u16, rest: Seq<u16>)
    requires
        0xd800 <= unit <= 0xdfff,
        unit >= 0xdc00 || rest.len() == 0 || !(0xdc00 <= rest[0] <= 0xdfff),
    ensures
        decoded(seq![unit] + rest) == seq!['\u{fffd}'] + decoded(rest),
{
    let units = seq![unit] + rest;
    assert(units[0] == unit);
    if rest.len() > 0 {
        assert(units[1] == rest[0]);
    }
    assert(units.skip(1) =~= rest);
}

/// Exactly the control characters leave a text, and the others keep their
/// order.
pub proof fn control_characters_leave(a: Seq<char>, c: char, b: Seq<char>)
    ensures
        printable(a + b) == printable(a) + printable(b),
        printable(seq![c]) == if c as u32 <= 0x1f || 0x7f <= c as u32 <= 0x9f {
            Seq::empty()
        } else {
            seq![c]
        },
        printable(Seq::empty()).len() == 0,
    decreases b.len(),
{
    assert(seq![c].drop_last() =~= Seq::empty());
    reveal_with_fuel(printable, 2);
    if b.len() == 0 {
        assert(a + b =~= a);
        assert(printable(a) + printable(b) =~= printable(a));
    } else {
        control_characters_leave(a, c, b.drop_last());
        assert((a + b).drop_last() =~= a + b.drop_last());
        assert((a + b).last() == b.last());
        assert(printable(a + b) =~= printable(a) + printable(b));
    }
    assert(printable(seq![c]) =~= if control(c) {
        Seq::empty()
    } else {
        seq![c]
    });
}

/// A command keeps its content on the way to its effect, and changes nothing
/// of the service but what it names.
pub proof fn commands_keep_their_content(s: ServiceView, command: Win32Command)
    ensures
        ({
            let (next, effect) = s.after(command);
            &&& command matches Win32Command::PasteText { target_hwnd, text } ==> effect
                == CommandEffect::Paste { target_hwnd, text, is_path: false }
            &&& command matches Win32Command::PastePath { target_hwnd, text } ==> effect
                == CommandEffect::Paste { target_hwnd, text, is_path: true }
            &&& command matches Win32Command::InjectText {
                target_hwnd,
                text,
                append_after_selection,
            } ==> effect == CommandEffect::Inject { target_hwnd, text, append_after_selection }
            &&& command matches Win32Command::SetTooltip(text) ==> effect
                == CommandEffect::SetTooltip(text)
            &&& command matches Win32Command::ShowMessageBox { title, text } ==> effect
                == CommandEffect::ShowMessageBox { title, text }
            &&& command matches Win32Command::OpenLog(path) ==> effect == CommandEffect::OpenLog(
                path,
            )
            &&& command matches Win32Command::OpenPath(path) ==> effect == CommandEffect::OpenPath(
                path,
            )
            &&& command matches Win32Command::CopyText(text) ==> effect == CommandEffect::CopyText(
                text,
            )
            &&& command is Shutdown <==> effect is Close
            &&& next.active == if command is SetActive {
                command->SetActive_0
            } else {
                s.active
            }
            &&& next.follow_cursor == if command is SetFollowCursor {
                command->SetFollowCursor_0
            } else {
                s.follow_cursor
            }
            &&& command matches Win32Command::SetActivityStatus { running, status } ==> {
                &&& next.activity_running == running
                &&& next.activity_status == status@
            }
            &&& !(command is SetActivityStatus) ==> next.activity_running == s.activity_running
                && next.activity_status == s.activity_status
            &&& !(command is SetKeyboardCapture || command is SetEscapeCapture
                || command is EndTyping) ==> next.capture == s.capture
            &&& next.last_artifacts_open == s.last_artifacts_open
            &&& next.overlay == s.overlay
        }),
{
}

/// Keyboard capture takes every key of a session, escape capture only the
/// cancel key; the end of typing keeps capture on, ends typing and flushes a
/// pending dead key.
pub proof fn capture_commands_set_the_mode(s: ServiceView, active: bool)
    ensures
        ({
            let (all, effect) = s.after(Win32Command::SetKeyboardCapture(active));
            &&& effect matches CommandEffect::Capture { step, cancel_only } && !cancel_only
                && step is Install == (active && !s.capture.installed)
            &&& active && s.capture.installed ==> (all.capture.keyboard matches Some(k) ==> {
                &&& k.accepting
                &&& !k.cancel_only
            })
        }),
        ({
            let (escape, effect) = s.after(Win32Command::SetEscapeCapture(active));
            &&& effect matches CommandEffect::Capture { step, cancel_only } && cancel_only
                && step is Install == (active && !s.capture.installed)
            &&& active && s.capture.installed ==> (escape.capture.keyboard matches Some(k) ==> {
                &&& k.accepting
                &&& k.cancel_only
            })
        }),
        ({
            let (ended, effect) = s.after(Win32Command::EndTyping);
            let pending = s.capture.keyboard matches Some(k) && k.dead_key;
            &&& effect is FlushDeadKey == pending
            &&& !pending ==> effect is Nothing
            &&& ended.capture.installed == s.capture.installed
            &&& ended.capture.keyboard is Some == s.capture.keyboard is Some
            &&& ended.capture.keyboard matches Some(k) ==> {
                &&& !k.typing && !k.dead_key
                &&& k.accepting == s.capture.keyboard->0.accepting
                &&& k.cancel_only == s.capture.keyboard->0.cancel_only
                &&& k.captured == s.capture.keyboard->0.captured
            }
        }),
{
}

/// The effect of every command in a queue without a shutdown is that of the
/// command alone, on the service as the commands before it left it.
pub proof fn queues_run_in_order(
    service: ServiceView,
    commands: Seq<Win32Command>,
    carried: spec_fn(ServiceView, CommandEffect) -> ServiceView,
    i: int,
)
    requires
        0 <= i < commands.len(),
        forall|j: int| 0 <= j < commands.len() ==> !((#[trigger] commands[j]) is Shutdown),
    ensures
        drained(service, commands, carried).2[i] == drained(
            service,
            commands.take(i),
            carried,
        ).1.after(commands[i]).1,
    decreases commands.len(),
{
    let rest = commands.drop_last();
    assert forall|j: int| 0 <= j < rest.len() implies !((#[trigger] rest[j]) is Shutdown) by {
        assert(rest[j] == commands[j]);
    }
    whole_queues_are_drained(service, rest, carried);
    if i < rest.len() {
        queues_run_in_order(service, rest, carried, i);
        assert(rest.take(i) =~= commands.take(i));
    } else {
        assert(rest =~= commands.take(i));
        assert(!(commands[i] is Shutdown));
    }
}

/// A frame is presented whenever there is a window for it, and a window that
/// comes back gets the frame it came back for. Without a frame nothing is
/// tried and nothing is said.
pub proof fn frames_are_presented(g: OverlayGuard, visible: bool, created: bool, updated: bool)
    ensures
        ({
            let (next, pass) = g.pass(Some(visible), created, updated);
            &&& g.present ==> pass.tried_update && !pass.tried_creation && next.present
            &&& !g.present && visible && !g.error_logged ==> pass.tried_creation && next.present
                == created && pass.tried_update == created
            &&& !g.present && !visible ==> !pass.tried_creation && !pass.tried_update
                && pass.complaints() == 0
            &&& pass.tried_update && updated ==> !next.error_logged && pass.complaints() == 0
            &&& g.present && !updated ==> next.error_logged && pass.log_update == !g.error_logged
        }),
        g.pass(None, created, updated).0 == g,
        g.pass(None, created, updated).1.complaints() == 0,
        !g.pass(None, created, updated).1.tried_creation,
        !g.pass(None, created, updated).1.tried_update,
{
}

/// The hotkeys: Win+Shift with H, G, Q and A, and Ctrl+Alt+V, none of them
/// repeating, each under an id of its own that finds it again.
pub proof fn hotkeys_are_distinct(a: HotkeyAction, b: HotkeyAction)
    ensures
        hotkey_of(hotkey_id(a)) == Some(a),
        hotkey_id(a) == hotkey_id(b) ==> a == b,
        hotkey_keys(a).1 == hotkey_keys(b).1 ==> a == b,
        hotkey_keys(a).1 == match a {
            HotkeyAction::Dictation => 'H',
            HotkeyAction::FixGrammar => 'G',
            HotkeyAction::AnswerQuestion => 'Q',
            HotkeyAction::PasteImage => 'V',
            HotkeyAction::Voice => 'A',
        },
        hotkey_keys(a).0 == if a is PasteImage {
            0x4003u32
        } else {
            0x400cu32
        },
{
    assert(0x0008u32 | 0x0004u32 | 0x4000u32 == 0x400cu32) by (bit_vector);
    assert(0x0002u32 | 0x0001u32 | 0x4000u32 == 0x4003u32) by (bit_vector);
}

/// A hotkey message runs its hotkey and a menu message its item, once the
/// service state is there; before that neither does anything.
pub proof fn messages_run_their_actions(hotkey: HotkeyAction, lparam: isize, id: usize)
    requires
        id <= 0xffff,
    ensures
        routed(0x0312, hotkey_id(hotkey) as usize, lparam, true) == Route::Hotkey(hotkey),
        routed(0x0312, hotkey_id(hotkey) as usize, lparam, false) == Route::Handled,
        menu_item_of(id) matches Some(item) ==> routed(0x0111, id, lparam, true) == Route::Menu(
            item,
        ),
        routed(0x0111, id, lparam, false) == Route::Default,
        routed(0x0002, id, lparam, true) == Route::Destroy,
        routed(0x0002, id, lparam, false) == Route::Destroy,
        routed(0x0113, id, lparam, true) == Route::Timer,
        routed(0x8001, id, 0x0202, true) == Route::TrayClick,
        routed(0x8001, id, 0x0205, true) == Route::TrayMenu,
{
    assert(id & 0xffff == id) by (bit_vector)
        requires
            id <= 0xffff,
    ;
}

/// Every item of the tray menu but the separators and the activity line is
/// there once, the first one says what it does next, and quitting comes last.
pub proof fn tray_menus_offer_everything(
    active: bool,
    activity_running: bool,
    status: Seq<char>,
    item: MenuItem,
)
    ensures
        ({
            let lines = menu_lines(active, activity_running, status);
            &&& exists|i: int|
                0 <= i < lines.len() && ((#[trigger] lines[i]) matches MenuEntryView::Item {
                    item: it,
                    ..
                } && it == item)
            &&& forall|i: int, j: int|
                0 <= i < j < lines.len() && #[trigger] lines[i] is Item && #[trigger] lines[j]
                    is Item
                    ==> lines[i]->item != lines[j]->item
            &&& lines[0] == MenuEntryView::Item {
                item: MenuItem::Toggle,
                label: if active {
                    "Stop dictation"@
                } else {
                    "Start dictation"@
                },
            }
            &&& lines.last() matches MenuEntryView::Item { item: it, .. } && it is Quit
        }),
{
    let lines = menu_lines(active, activity_running, status);
    let i: int = match item {
        MenuItem::Toggle => 0,
        MenuItem::ToggleActivity => 2,
        MenuItem::OpenArtifacts => 4,
        MenuItem::OpenJournal => 5,
        MenuItem::ReloadConfig => 7,
        MenuItem::OpenLog => 8,
        MenuItem::CopyLogPath => 9,
        MenuItem::About => 10,
        MenuItem::Quit => 12,
    };
    assert(lines[i] is Item && lines[i]->item == item);
}

/// With room behind the cursor the overlay stands there, eight logical pixels
/// away; where it would pass the edge it stands as far before the cursor, if
/// there is room for it there. It never covers the cursor in either place.
pub proof fn overlays_stand_by_the_cursor(cursor: int, extent: int, gap: int, min: int, end: int)
    requires
        extent >= 0,
        gap >= 0,
        min <= cursor <= end,
    ensures
        cursor + gap + extent <= end ==> span_at(cursor, extent, gap, min, end) == cursor + gap,
        cursor + gap + extent > end && cursor - extent - gap >= min ==> span_at(
            cursor,
            extent,
            gap,
            min,
            end,
        ) == cursor - extent - gap,
        cursor + gap + extent > end && cursor - extent - gap < min ==> span_at(
            cursor,
            extent,
            gap,
            min,
            end,
        ) == min,
{
}

/// Without a monitor to stay on, the overlay stands eight logical pixels right
/// of the cursor and below it, at any number of dots per inch.
pub proof fn overlays_keep_their_distance(cursor: (i32, i32), dpi: int)
    ensures
        ({
            let (x, y) = pill_at(cursor, dpi, None);
            &&& x - cursor.0 * 960 == 80 * dpi
            &&& y - cursor.1 * 960 == 80 * dpi
        }),
        80 * 96 == 8 * 960,
{
}

/// A position goes to the nearest whole pixel, and positions the same distance
/// on either side of zero go to pixels that are.
pub proof fn pixels_are_nearest(parts: int)
    requires
        -0x7fff_ffff * 960 <= parts <= 0x7fff_ffff * 960,
    ensures
        -480 <= pixel_of(parts) * 960 - parts <= 480,
        pixel_of(-parts) == -pixel_of(parts),
        parts % 960 == 0 ==> pixel_of(parts) * 960 == parts,
{
}

/// What a key spells is the text of its units without control characters,
/// where that leaves anything; a key that spells nothing else is no text.
pub proof fn keys_spell_their_printable_text(count: int, units: Seq<u16>)
    ensures
        ({
            let text = printable(decoded(units.take(count)));
            &&& count > 0 && text.len() > 0 ==> translated(count, units) == Some(text)
            &&& count <= 0 || text.len() == 0 ==> translated(count, units) is None
        }),
{
}

/// A key beyond the key table passes to the application and leaves no trace.
pub proof fn keys_beyond_the_table_pass(k: KeyboardView, vk: u32, is_down: bool)
    requires
        vk >= 256,
    ensures
        k.key_step(vk, is_down).0 == k,
        k.key_step(vk, is_down).1 matches Some(outcome) && !outcome.captured
            && !outcome.flush_dead_key && outcome.events.len() == 0,
{
}

/// A value is brought into its range, and one that lies there stays.
pub proof fn clamping_keeps_values_in_range(value: int, min: int, max: int)
    ensures
        min <= max ==> min <= clamped(value, min, max) <= max,
        min <= value <= max ==> clamped(value, min, max) == value,
        min > max ==> clamped(value, min, max) == min,
        value < min ==> clamped(value, min, max) == min,
        value > max && min <= max ==> clamped(value, min, max) == max,
{
}

} // verus!
