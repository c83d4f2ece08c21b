use maxtui::event::{
    convert_key_event, convert_modifiers, convert_mouse_button, convert_mouse_event, Event,
    KeyCode, KeyEventKind, MouseButton, MouseEventKind, RawInput, RawKeyCode, RawKeyEvent,
    RawKeyEventKind, RawMouseButton, RawMouseEvent, RawMouseEventKind, ALT_BIT, CTRL_BIT,
    SHIFT_BIT,
};

fn raw_key(code: RawKeyCode, bits: u8) -> RawKeyEvent {
    RawKeyEvent { code, modifier_bits: bits, kind: RawKeyEventKind::Press }
}

#[test]
fn escape_maps_to_escape() {
    let k = convert_key_event(&raw_key(RawKeyCode::Esc, 0));
    assert_eq!(k.code, KeyCode::Escape);
    assert_eq!(k.kind, KeyEventKind::Press);
}

#[test]
fn recognized_keys_keep_their_identity() {
    assert_eq!(convert_key_event(&raw_key(RawKeyCode::Char('q'), 0)).code, KeyCode::Char('q'));
    assert_eq!(convert_key_event(&raw_key(RawKeyCode::F(5), 0)).code, KeyCode::F(5));
    assert_eq!(convert_key_event(&raw_key(RawKeyCode::Enter, 0)).code, KeyCode::Enter);
    assert_eq!(convert_key_event(&raw_key(RawKeyCode::PageDown, 0)).code, KeyCode::PageDown);
    assert_eq!(convert_key_event(&raw_key(RawKeyCode::Left, 0)).code, KeyCode::Left);
}

#[test]
fn unmapped_key_falls_back_to_space() {
    let k = convert_key_event(&raw_key(RawKeyCode::Other, 0));
    assert_eq!(k.code, KeyCode::Char(' '));
}

#[test]
fn release_and_repeat_kinds_carry_over() {
    let released = RawKeyEvent {
        code: RawKeyCode::Enter,
        modifier_bits: 0,
        kind: RawKeyEventKind::Release,
    };
    assert_eq!(convert_key_event(&released).kind, KeyEventKind::Release);
    let repeated = RawKeyEvent {
        code: RawKeyCode::Enter,
        modifier_bits: 0,
        kind: RawKeyEventKind::Repeat,
    };
    assert_eq!(convert_key_event(&repeated).kind, KeyEventKind::Repeat);
}

#[test]
fn modifier_translation_tests_the_three_flags() {
    let m = convert_modifiers(SHIFT_BIT | ALT_BIT);
    assert!(m.shift);
    assert!(!m.ctrl);
    assert!(m.alt);
    let m2 = convert_modifiers(CTRL_BIT);
    assert!(!m2.shift);
    assert!(m2.ctrl);
    assert!(!m2.alt);
    // Bits outside the three flags are ignored.
    let m3 = convert_modifiers(0xf8);
    assert!(!m3.shift && !m3.ctrl && !m3.alt);
}

#[test]
fn mouse_buttons_map_one_to_one() {
    assert_eq!(convert_mouse_button(RawMouseButton::Left), MouseButton::Left);
    assert_eq!(convert_mouse_button(RawMouseButton::Right), MouseButton::Right);
    assert_eq!(convert_mouse_button(RawMouseButton::Middle), MouseButton::Middle);
}

#[test]
fn mouse_event_keeps_position_and_kind() {
    let m = RawMouseEvent {
        kind: RawMouseEventKind::Down(RawMouseButton::Middle),
        column: 7,
        row: 9,
        modifier_bits: SHIFT_BIT,
    };
    let e = convert_mouse_event(&m);
    assert_eq!(e.kind, MouseEventKind::Down(MouseButton::Middle));
    assert_eq!(e.column, 7);
    assert_eq!(e.row, 9);
    assert!(e.modifiers.shift);

    let scroll = RawMouseEvent {
        kind: RawMouseEventKind::ScrollLeft,
        column: 0,
        row: 0,
        modifier_bits: 0,
    };
    assert_eq!(convert_mouse_event(&scroll).kind, MouseEventKind::ScrollLeft);
}

#[test]
fn normalize_maps_each_signal_category() {
    match Event::normalize(RawInput::Resize(80, 24)) {
        Some(Event::Resize(w, h)) => {
            assert_eq!((w, h), (80, 24));
        }
        other => panic!("unexpected event: {:?}", other),
    }
    assert_eq!(Event::normalize(RawInput::FocusGained), Some(Event::Focus(true)));
    assert_eq!(Event::normalize(RawInput::FocusLost), Some(Event::Focus(false)));
    assert_eq!(
        Event::normalize(RawInput::Paste(String::from("hi"))),
        Some(Event::Paste(String::from("hi")))
    );
}

#[test]
fn normalize_drops_unsupported_signals() {
    assert_eq!(Event::normalize(RawInput::Unsupported), None);
}
