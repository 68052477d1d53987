use trust_80::bus::TrsBus;
use trust_80::host_keyboard::{from_text, is_text_key, KeyEvent, Keyboard};
use trust_80::keys::Keycode;

fn rows(kb: &mut Keyboard) -> Vec<u8> {
    let mut bus = TrsBus::new(0xFFFF);
    kb.update(&mut bus, 0);
    [0x3801u16, 0x3802, 0x3804, 0x3808, 0x3810, 0x3820, 0x3840, 0x3880]
        .iter()
        .map(|&a| bus.read_byte(a))
        .collect()
}

#[test]
fn composed_text_maps_to_keys() {
    assert_eq!(from_text("a"), Some(Keycode::A));
    assert_eq!(from_text("Z"), Some(Keycode::Z));
    assert_eq!(from_text("\""), Some(Keycode::Quotedbl));
    assert_eq!(from_text("?"), Some(Keycode::Question));
    assert_eq!(from_text("é"), None);
    assert_eq!(from_text("ab"), None);
    assert_eq!(from_text(""), None);
}

#[test]
fn text_keys_exclude_the_keypad_and_functions() {
    assert!(is_text_key(Keycode::Num3));
    assert!(is_text_key(Keycode::Less));
    assert!(!is_text_key(Keycode::Kp3));
    assert!(!is_text_key(Keycode::Return));
    assert!(!is_text_key(Keycode::LShift));
}

#[test]
fn a_text_key_waits_for_its_composed_text() {
    let mut kb = Keyboard::new();
    // The host says "3", but the layout typed '"'.
    kb.handle_event(&KeyEvent::KeyDown { scancode: 32, key: Some(Keycode::Num3) }, 0);
    assert_eq!(rows(&mut kb), vec![0; 8]);
    kb.handle_event(&KeyEvent::TextInput { text: "\"".to_string() }, 0);
    assert_eq!(rows(&mut kb), vec![0, 0, 0, 0, 0x04, 0, 0, 0x01]);
    // Its release releases what was asserted.
    kb.handle_event(&KeyEvent::KeyUp { scancode: 32 }, 0);
    assert_eq!(rows(&mut kb), vec![0; 8]);
}

#[test]
fn a_press_without_text_falls_back_to_its_key_code() {
    let mut kb = Keyboard::new();
    kb.handle_event(&KeyEvent::KeyDown { scancode: 4, key: Some(Keycode::A) }, 0);
    kb.handle_event(&KeyEvent::KeyDown { scancode: 40, key: Some(Keycode::Return) }, 0);
    assert_eq!(rows(&mut kb), vec![0x02, 0, 0, 0, 0, 0, 0x01, 0]);
}

#[test]
fn less_with_shift_held_becomes_greater_on_fallback() {
    let mut kb = Keyboard::new();
    kb.handle_event(&KeyEvent::KeyDown { scancode: 225, key: Some(Keycode::LShift) }, 0);
    kb.handle_event(&KeyEvent::KeyDown { scancode: 100, key: Some(Keycode::Less) }, 0);
    kb.handle_event(&KeyEvent::Other, 0);
    kb.handle_event(&KeyEvent::KeyUp { scancode: 225 }, 0);
    // Greater (0x3820 bit 0x40, shifted) stays held.
    assert_eq!(rows(&mut kb), vec![0, 0, 0, 0, 0, 0x40, 0, 0x01]);
}

#[test]
fn losing_focus_releases_everything() {
    let mut kb = Keyboard::new();
    kb.handle_event(&KeyEvent::KeyDown { scancode: 44, key: Some(Keycode::Space) }, 0);
    kb.handle_event(&KeyEvent::KeyDown { scancode: 5, key: Some(Keycode::B) }, 0);
    kb.handle_event(&KeyEvent::FocusLost, 0);
    assert_eq!(rows(&mut kb), vec![0; 8]);
    kb.handle_event(&KeyEvent::TextInput { text: "b".to_string() }, 0);
    assert_eq!(rows(&mut kb), vec![0; 8]);
}

#[test]
fn unmapped_keys_still_flush_a_pending_press() {
    let mut kb = Keyboard::new();
    kb.handle_event(&KeyEvent::KeyDown { scancode: 5, key: Some(Keycode::B) }, 0);
    kb.handle_event(&KeyEvent::KeyDown { scancode: 58, key: None }, 0);
    assert_eq!(rows(&mut kb), vec![0x04, 0, 0, 0, 0, 0, 0, 0]);
}

#[test]
fn virtual_keys_follow_the_panel_frame_by_frame() {
    let mut kb = Keyboard::new();
    // A physical key held throughout.
    kb.handle_event(&KeyEvent::KeyDown { scancode: 40, key: Some(Keycode::Return) }, 0);
    kb.sync_virtual_keys(&[], &[Keycode::A, Keycode::A], 0);
    assert_eq!(rows(&mut kb), vec![0x02, 0, 0, 0, 0, 0, 0x01, 0]);
    kb.sync_virtual_keys(&[Keycode::A, Keycode::A], &[Keycode::A, Keycode::B], 0);
    assert_eq!(rows(&mut kb), vec![0x06, 0, 0, 0, 0, 0, 0x01, 0]);
    // The panel closes: everything it held is released, the physical key stays.
    kb.sync_virtual_keys(&[Keycode::A, Keycode::B], &[], 0);
    assert_eq!(rows(&mut kb), vec![0, 0, 0, 0, 0, 0, 0x01, 0]);
}
