use trust_80::keyboard_panel::{
    keys, KeyInput, KeyboardPanel, Target, IMAGE_HEIGHT, IMAGE_WIDTH, KEY_COUNT,
};
use trust_80::keys::Keycode;

#[test]
fn every_key_rect_stays_within_the_source_image_and_has_positive_area() {
    for (index, key) in keys().iter().enumerate() {
        assert!(
            key.rect.max_x <= IMAGE_WIDTH,
            "rectangle hors limites en x pour l'index {index} : {:?}",
            key.rect
        );
        assert!(
            key.rect.max_y <= IMAGE_HEIGHT,
            "rectangle hors limites en y pour l'index {index} : {:?}",
            key.rect
        );
        assert!(
            key.rect.min_x < key.rect.max_x && key.rect.min_y < key.rect.max_y,
            "rectangle degenere pour l'index {index} : {:?}",
            key.rect
        );
    }
}

#[test]
fn key_rects_never_overlap() {
    let all = keys();
    for (i, a) in all.iter().enumerate() {
        for (j, b) in all.iter().enumerate().skip(i + 1) {
            assert!(
                !a.rect.intersects(&b.rect),
                "chevauchement entre l'index {i} ({:?}) et l'index {j} ({:?})",
                a.rect,
                b.rect
            );
        }
    }
}

#[test]
fn key_table_has_every_key_once() {
    let all = keys();
    assert_eq!(all.len(), KEY_COUNT);
    assert_eq!(all[0].target, Target::Shiftable(Keycode::Num1, Keycode::Exclaim));
    assert_eq!(all.iter().filter(|k| k.target == Target::Shift).count(), 2);
}

fn index_of(target: Target) -> usize {
    keys().iter().position(|k| k.target == target).unwrap()
}

fn inputs_with(held: &[usize], clicked: &[usize]) -> Vec<KeyInput> {
    (0..KEY_COUNT)
        .map(|i| KeyInput { held: held.contains(&i), clicked: clicked.contains(&i) })
        .collect()
}

#[test]
fn shift_latch_selects_the_shifted_legend_then_releases() {
    let mut panel = KeyboardPanel::new();
    let shift = index_of(Target::Shift);
    let one = index_of(Target::Shiftable(Keycode::Num1, Keycode::Exclaim));

    // Unshifted: the digit.
    let active = panel.frame(&inputs_with(&[one], &[]));
    assert_eq!(active, vec![Keycode::Num1]);

    // Click SHIFT: latched, nothing sent.
    let active = panel.frame(&inputs_with(&[], &[shift]));
    assert!(active.is_empty());
    assert!(panel.shift_latched());

    // Held with SHIFT latched: the symbol; the click releases the latch.
    let active = panel.frame(&inputs_with(&[one], &[one]));
    assert_eq!(active, vec![Keycode::Exclaim]);
    assert!(!panel.shift_latched());
}

#[test]
fn two_shift_clicks_in_one_frame_cancel_out() {
    let mut panel = KeyboardPanel::new();
    let shifts: Vec<usize> = (0..KEY_COUNT).filter(|&i| keys()[i].target == Target::Shift).collect();
    panel.frame(&inputs_with(&[], &shifts));
    assert!(!panel.shift_latched());
}

#[test]
fn held_keys_are_reported_once_each() {
    let mut panel = KeyboardPanel::new();
    let kp1 = index_of(Target::Fixed(Keycode::Kp1));
    let a = index_of(Target::Fixed(Keycode::A));
    let active = panel.frame(&inputs_with(&[kp1, a], &[]));
    assert_eq!(active.len(), 2);
    assert!(active.contains(&Keycode::Kp1));
    assert!(active.contains(&Keycode::A));
}
