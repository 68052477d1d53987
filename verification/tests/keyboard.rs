use trust_80::bus::TrsBus;
use trust_80::keyboard::{key_target, Keyboard};
use trust_80::keys::Keycode;

fn rows_after(kb: &mut Keyboard, now: u64) -> Vec<u8> {
    let mut bus = TrsBus::new(0xFFFF);
    kb.update(&mut bus, now);
    assert_eq!(bus.read_byte(0x387f), 1);
    [0x3801u16, 0x3802, 0x3804, 0x3808, 0x3810, 0x3820, 0x3840, 0x3880]
        .iter()
        .map(|&a| bus.read_byte(a))
        .collect()
}

#[test]
fn key_targets_follow_the_trs80_legends() {
    assert_eq!(key_target(Keycode::A), Some((0x3801, 0x02, false)));
    assert_eq!(key_target(Keycode::Exclaim), Some((0x3810, 0x02, true)));
    assert_eq!(key_target(Keycode::Kp7), Some((0x3810, 0x80, false)));
    assert_eq!(key_target(Keycode::Backspace), Some((0x3840, 0x20, false)));
    assert_eq!(key_target(Keycode::LShift), None);
    assert_eq!(key_target(Keycode::RShift), None);
    assert_eq!(key_target(Keycode::LCtrl), None);
}

#[test]
fn no_key_no_bit() {
    let mut kb = Keyboard::new();
    assert_eq!(rows_after(&mut kb, 0), vec![0; 8]);
}

#[test]
fn keys_in_different_rows_are_held_together() {
    let mut kb = Keyboard::new();
    kb.key_down(Keycode::A, 0);
    kb.key_down(Keycode::Num2, 0);
    assert_eq!(rows_after(&mut kb, 0), vec![0x02, 0, 0, 0, 0x04, 0, 0, 0]);
    kb.key_up(Keycode::A);
    assert_eq!(rows_after(&mut kb, 0), vec![0, 0, 0, 0, 0x04, 0, 0, 0]);
}

#[test]
fn shifted_characters_assert_shift() {
    let mut kb = Keyboard::new();
    kb.key_down(Keycode::Quotedbl, 0);
    assert_eq!(rows_after(&mut kb, 0), vec![0, 0, 0, 0, 0x04, 0, 0, 0x01]);
}

#[test]
fn repeated_press_then_release_leaves_nothing_held() {
    let mut kb = Keyboard::new();
    kb.key_down(Keycode::Z, 0);
    kb.key_down(Keycode::Z, 5);
    kb.key_up(Keycode::Z);
    assert_eq!(rows_after(&mut kb, 10), vec![0; 8]);
}

#[test]
fn backspace_repeats_after_its_delay() {
    let mut kb = Keyboard::new();
    kb.key_down(Keycode::Backspace, 1000);
    assert_eq!(rows_after(&mut kb, 1000)[6], 0x20);
    assert_eq!(rows_after(&mut kb, 1499)[6], 0x20);
    assert_eq!(rows_after(&mut kb, 1500)[6], 0x20);
    assert_eq!(rows_after(&mut kb, 1539)[6], 0x20);
    assert_eq!(rows_after(&mut kb, 1540)[6], 0x00);
    assert_eq!(rows_after(&mut kb, 1579)[6], 0x00);
    assert_eq!(rows_after(&mut kb, 1580)[6], 0x20);
    // A second press while held keeps the first start time.
    kb.key_down(Keycode::Backspace, 1545);
    assert_eq!(rows_after(&mut kb, 1545)[6], 0x00);
    kb.key_up(Keycode::Backspace);
    assert_eq!(rows_after(&mut kb, 1600)[6], 0x00);
}

#[test]
fn ctrl_altgr_zero_forces_at() {
    let mut kb = Keyboard::new();
    kb.key_down(Keycode::LCtrl, 0);
    kb.key_down(Keycode::RAlt, 0);
    kb.key_down(Keycode::Num0, 0);
    assert_eq!(rows_after(&mut kb, 0), vec![0x01, 0, 0, 0, 0x01, 0, 0, 0]);
}

#[test]
fn clear_releases_everything() {
    let mut kb = Keyboard::new();
    kb.key_down(Keycode::Space, 0);
    kb.key_down(Keycode::Backspace, 0);
    kb.clear();
    assert_eq!(rows_after(&mut kb, 0), vec![0; 8]);
}

#[test]
fn matrix_rows_match_what_update_writes() {
    let mut kb = Keyboard::new();
    kb.key_down(Keycode::Return, 0);
    kb.key_down(Keycode::Question, 0);
    assert_eq!(kb.matrix_rows(0), rows_after(&mut kb, 0));
    assert_eq!(kb.matrix_rows(0), vec![0, 0, 0, 0, 0, 0x80, 0x01, 0x01]);
}

#[test]
fn backspace_pressed_again_after_release_restarts_its_timer() {
    let mut kb = Keyboard::new();
    kb.key_down(Keycode::Backspace, 0);
    kb.key_up(Keycode::Backspace);
    assert_eq!(rows_after(&mut kb, 545), vec![0; 8]);
    // The press is timed afresh: held from 545, it reads pressed at once.
    kb.key_down(Keycode::Backspace, 545);
    assert_eq!(rows_after(&mut kb, 545)[6], 0x20);
    assert_eq!(rows_after(&mut kb, 1044)[6], 0x20);
}
