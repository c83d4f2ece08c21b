//! The input event model and the normalizer that turns raw platform input
//! signals, given as plain values, into the library's typed event stream.

use vstd::prelude::*;

verus! {

/// A key identity.
#[derive(Clone, Copy, PartialEq, Eq, Structural, Debug)]
pub enum KeyCode {
    Char(char),
    F(u8),
    Enter,
    Escape,
    Backspace,
    Tab,
    Delete,
    Insert,
    Home,
    End,
    PageUp,
    PageDown,
    Up,
    Down,
    Left,
    Right,
    Media(MediaKey),
}

/// A media control key.
#[derive(Clone, Copy, PartialEq, Eq, Structural, Debug)]
pub enum MediaKey {
    Play,
    Pause,
    PlayPause,
    Mute,
    VolumeDown,
    VolumeUp,
    Next,
    Previous,
}

/// The three modifiers the event model distinguishes.
#[derive(Clone, Copy, PartialEq, Eq, Structural, Debug)]
pub struct KeyModifiers {
    pub shift: bool,
    pub ctrl: bool,
    pub alt: bool,
}

/// One keyboard event.
#[derive(Clone, Copy, PartialEq, Eq, Structural, Debug)]
pub struct KeyEvent {
    pub code: KeyCode,
    pub modifiers: KeyModifiers,
    pub kind: KeyEventKind,
}

#[derive(Clone, Copy, PartialEq, Eq, Structural, Debug)]
pub enum KeyEventKind {
    Press,
    Release,
    Repeat,
}

/// One mouse event at a zero-based `(column, row)` cell position.
#[derive(Clone, Copy, PartialEq, Eq, Structural, Debug)]
pub struct MouseEvent {
    pub kind: MouseEventKind,
    pub column: u16,
    pub row: u16,
    pub modifiers: KeyModifiers,
}

#[derive(Clone, Copy, PartialEq, Eq, Structural, Debug)]
pub enum MouseEventKind {
    Down(MouseButton),
    Up(MouseButton),
    Drag(MouseButton),
    Moved,
    ScrollDown,
    ScrollUp,
    ScrollLeft,
    ScrollRight,
}

#[derive(Clone, Copy, PartialEq, Eq, Structural, Debug)]
pub enum MouseButton {
    Left,
    Right,
    Middle,
}

/// A normalized input event. Exactly one variant is populated per event;
/// the stream is ordered by arrival.
#[derive(Clone, Debug, PartialEq)]
pub enum Event {
    Key(KeyEvent),
    Mouse(MouseEvent),
    Resize(u16, u16),
    Focus(bool),
    Paste(String),
}

/// Bit the platform sets in the raw modifier mask for shift.
pub const SHIFT_BIT: u8 = 1;

/// Bit the platform sets in the raw modifier mask for control.
pub const CTRL_BIT: u8 = 2;

/// Bit the platform sets in the raw modifier mask for alt.
pub const ALT_BIT: u8 = 4;

/// A platform key identity as the reader reports it, reduced to plain
/// values. `Other` stands for every platform key outside this set.
#[derive(Clone, Copy, PartialEq, Eq, Structural, Debug)]
pub enum RawKeyCode {
    Char(char),
    F(u8),
    Enter,
    Esc,
    Backspace,
    Tab,
    Delete,
    Insert,
    Home,
    End,
    PageUp,
    PageDown,
    Up,
    Down,
    Left,
    Right,
    Other,
}

#[derive(Clone, Copy, PartialEq, Eq, Structural, Debug)]
pub enum RawKeyEventKind {
    Press,
    Release,
    Repeat,
}

/// One raw keyboard signal: a key identity, the platform's modifier bit
/// mask, and the press kind.
#[derive(Clone, Copy, PartialEq, Eq, Structural, Debug)]
pub struct RawKeyEvent {
    pub code: RawKeyCode,
    pub modifier_bits: u8,
    pub kind: RawKeyEventKind,
}

#[derive(Clone, Copy, PartialEq, Eq, Structural, Debug)]
pub enum RawMouseButton {
    Left,
    Right,
    Middle,
}

#[derive(Clone, Copy, PartialEq, Eq, Structural, Debug)]
pub enum RawMouseEventKind {
    Down(RawMouseButton),
    Up(RawMouseButton),
    Drag(RawMouseButton),
    Moved,
    ScrollDown,
    ScrollUp,
    ScrollLeft,
    ScrollRight,
}

/// One raw mouse signal.
#[derive(Clone, Copy, PartialEq, Eq, Structural, Debug)]
pub struct RawMouseEvent {
    pub kind: RawMouseEventKind,
    pub column: u16,
    pub row: u16,
    pub modifier_bits: u8,
}

/// One raw platform input signal, as plain values. `Unsupported` stands for
/// any signal category outside the normalizer's taxonomy; the normalizer
/// discards it rather than fail, so a reader can filter and read again.
#[derive(Clone, Debug)]
pub enum RawInput {
    Key(RawKeyEvent),
    Mouse(RawMouseEvent),
    Resize(u16, u16),
    FocusGained,
    FocusLost,
    Paste(String),
    Unsupported,
}

/// Modifier translation: a bitwise containment test against the three
/// supported flags; any other bit in the mask is ignored.
pub open spec fn spec_modifiers(bits: u8) -> KeyModifiers {
    KeyModifiers { shift: bits & SHIFT_BIT != 0, ctrl: bits & CTRL_BIT != 0, alt: bits & ALT_BIT != 0 }
}

/// Key mapping: each recognized platform key keeps its identity; every
/// unrecognized key falls back to the space character rather than fail.
pub open spec fn spec_convert_key_code(code: RawKeyCode) -> KeyCode {
    match code {
        RawKeyCode::Char(c) => KeyCode::Char(c),
        RawKeyCode::F(f) => KeyCode::F(f),
        RawKeyCode::Enter => KeyCode::Enter,
        RawKeyCode::Esc => KeyCode::Escape,
        RawKeyCode::Backspace => KeyCode::Backspace,
        RawKeyCode::Tab => KeyCode::Tab,
        RawKeyCode::Delete => KeyCode::Delete,
        RawKeyCode::Insert => KeyCode::Insert,
        RawKeyCode::Home => KeyCode::Home,
        RawKeyCode::End => KeyCode::End,
        RawKeyCode::PageUp => KeyCode::PageUp,
        RawKeyCode::PageDown => KeyCode::PageDown,
        RawKeyCode::Up => KeyCode::Up,
        RawKeyCode::Down => KeyCode::Down,
        RawKeyCode::Left => KeyCode::Left,
        RawKeyCode::Right => KeyCode::Right,
        RawKeyCode::Other => KeyCode::Char(' '),
    }
}

pub open spec fn spec_convert_key_kind(kind: RawKeyEventKind) -> KeyEventKind {
    match kind {
        RawKeyEventKind::Press => KeyEventKind::Press,
        RawKeyEventKind::Release => KeyEventKind::Release,
        RawKeyEventKind::Repeat => KeyEventKind::Repeat,
    }
}

pub open spec fn spec_convert_key_event(k: RawKeyEvent) -> KeyEvent {
    KeyEvent {
        code: spec_convert_key_code(k.code),
        modifiers: spec_modifiers(k.modifier_bits),
        kind: spec_convert_key_kind(k.kind),
    }
}

pub open spec fn spec_convert_mouse_button(b: RawMouseButton) -> MouseButton {
    match b {
        RawMouseButton::Left => MouseButton::Left,
        RawMouseButton::Right => MouseButton::Right,
        RawMouseButton::Middle => MouseButton::Middle,
    }
}

pub open spec fn spec_convert_mouse_kind(kind: RawMouseEventKind) -> MouseEventKind {
    match kind {
        RawMouseEventKind::Down(b) => MouseEventKind::Down(spec_convert_mouse_button(b)),
        RawMouseEventKind::Up(b) => MouseEventKind::Up(spec_convert_mouse_button(b)),
        RawMouseEventKind::Drag(b) => MouseEventKind::Drag(spec_convert_mouse_button(b)),
        RawMouseEventKind::Moved => MouseEventKind::Moved,
        RawMouseEventKind::ScrollDown => MouseEventKind::ScrollDown,
        RawMouseEventKind::ScrollUp => MouseEventKind::ScrollUp,
        RawMouseEventKind::ScrollLeft => MouseEventKind::ScrollLeft,
        RawMouseEventKind::ScrollRight => MouseEventKind::ScrollRight,
    }
}

pub open spec fn spec_convert_mouse_event(m: RawMouseEvent) -> MouseEvent {
    MouseEvent {
        kind: spec_convert_mouse_kind(m.kind),
        column: m.column,
        row: m.row,
        modifiers: spec_modifiers(m.modifier_bits),
    }
}

/// What the normalizer yields for one raw signal: every signal in the
/// taxonomy maps to exactly one event; an unsupported signal maps to
/// nothing and is dropped.
pub open spec fn spec_normalize(raw: RawInput) -> Option<Event> {
    match raw {
        RawInput::Key(k) => Some(Event::Key(spec_convert_key_event(k))),
        RawInput::Mouse(m) => Some(Event::Mouse(spec_convert_mouse_event(m))),
        RawInput::Resize(w, h) => Some(Event::Resize(w, h)),
        RawInput::FocusGained => Some(Event::Focus(true)),
        RawInput::FocusLost => Some(Event::Focus(false)),
        RawInput::Paste(s) => Some(Event::Paste(s)),
        RawInput::Unsupported => None,
    }
}

pub fn convert_modifiers(bits: u8) -> (m: KeyModifiers)
    ensures
        m == spec_modifiers(bits),
{
    KeyModifiers {
        shift: bits & SHIFT_BIT != 0,
        ctrl: bits & CTRL_BIT != 0,
        alt: bits & ALT_BIT != 0,
    }
}

pub fn convert_key_event(k: &RawKeyEvent) -> (r: KeyEvent)
    ensures
        r == spec_convert_key_event(*k),
{
    let code = match k.code {
        RawKeyCode::Char(c) => KeyCode::Char(c),
        RawKeyCode::F(f) => KeyCode::F(f),
        RawKeyCode::Enter => KeyCode::Enter,
        RawKeyCode::Esc => KeyCode::Escape,
        RawKeyCode::Backspace => KeyCode::Backspace,
        RawKeyCode::Tab => KeyCode::Tab,
        RawKeyCode::Delete => KeyCode::Delete,
        RawKeyCode::Insert => KeyCode::Insert,
        RawKeyCode::Home => KeyCode::Home,
        RawKeyCode::End => KeyCode::End,
        RawKeyCode::PageUp => KeyCode::PageUp,
        RawKeyCode::PageDown => KeyCode::PageDown,
        RawKeyCode::Up => KeyCode::Up,
        RawKeyCode::Down => KeyCode::Down,
        RawKeyCode::Left => KeyCode::Left,
        RawKeyCode::Right => KeyCode::Right,
        RawKeyCode::Other => KeyCode::Char(' '),
    };
    let kind = match k.kind {
        RawKeyEventKind::Press => KeyEventKind::Press,
        RawKeyEventKind::Release => KeyEventKind::Release,
        RawKeyEventKind::Repeat => KeyEventKind::Repeat,
    };
    KeyEvent { code, modifiers: convert_modifiers(k.modifier_bits), kind }
}

pub fn convert_mouse_button(btn: RawMouseButton) -> (r: MouseButton)
    ensures
        r == spec_convert_mouse_button(btn),
{
    match btn {
        RawMouseButton::Left => MouseButton::Left,
        RawMouseButton::Right => MouseButton::Right,
        RawMouseButton::Middle => MouseButton::Middle,
    }
}

pub fn convert_mouse_event(m: &RawMouseEvent) -> (r: MouseEvent)
    ensures
        r == spec_convert_mouse_event(*m),
{
    let kind = match m.kind {
        RawMouseEventKind::Down(b) => MouseEventKind::Down(convert_mouse_button(b)),
        RawMouseEventKind::Up(b) => MouseEventKind::Up(convert_mouse_button(b)),
        RawMouseEventKind::Drag(b) => MouseEventKind::Drag(convert_mouse_button(b)),
        RawMouseEventKind::Moved => MouseEventKind::Moved,
        RawMouseEventKind::ScrollDown => MouseEventKind::ScrollDown,
        RawMouseEventKind::ScrollUp => MouseEventKind::ScrollUp,
        RawMouseEventKind::ScrollLeft => MouseEventKind::ScrollLeft,
        RawMouseEventKind::ScrollRight => MouseEventKind::ScrollRight,
    };
    MouseEvent { kind, column: m.column, row: m.row, modifiers: convert_modifiers(m.modifier_bits) }
}

impl Event {
    /// Normalizes one raw platform signal. Yields `None` exactly for
    /// signals outside the taxonomy, which the caller skips — a filtering
    /// reader rather than an unbounded internal retry.
    pub fn normalize(raw: RawInput) -> (r: Option<Event>)
        ensures
            r == spec_normalize(raw),
    {
        match raw {
            RawInput::Key(k) => Some(Event::Key(convert_key_event(&k))),
            RawInput::Mouse(m) => Some(Event::Mouse(convert_mouse_event(&m))),
            RawInput::Resize(w, h) => Some(Event::Resize(w, h)),
            RawInput::FocusGained => Some(Event::Focus(true)),
            RawInput::FocusLost => Some(Event::Focus(false)),
            RawInput::Paste(s) => Some(Event::Paste(s)),
            RawInput::Unsupported => None,
        }
    }
}

} // verus!
