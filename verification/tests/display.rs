use trust_80::display::{DisplayMode, Panels};

#[test]
fn zoom_levels_read_from_config() {
    assert_eq!(DisplayMode::from_config(Some("half")), DisplayMode::Half);
    assert_eq!(DisplayMode::from_config(Some("normal")), DisplayMode::Normal);
    assert_eq!(DisplayMode::from_config(Some("x2")), DisplayMode::X2);
    assert_eq!(DisplayMode::from_config(Some("fullscreen")), DisplayMode::Fullscreen);
    assert_eq!(DisplayMode::from_config(Some("x3")), DisplayMode::Normal);
    assert_eq!(DisplayMode::from_config(Some("Half")), DisplayMode::Normal);
    assert_eq!(DisplayMode::from_config(None), DisplayMode::Normal);
}

#[test]
fn zoom_levels_round_trip_through_config() {
    for m in [DisplayMode::Half, DisplayMode::Normal, DisplayMode::X2, DisplayMode::Fullscreen] {
        assert_eq!(DisplayMode::from_config(Some(m.as_config_str())), m);
    }
    assert_eq!(DisplayMode::X2.as_config_str(), "x2");
}

#[test]
fn f4_toggles_fullscreen() {
    assert_eq!(DisplayMode::Fullscreen.toggled_fullscreen(), DisplayMode::Normal);
    assert_eq!(DisplayMode::Half.toggled_fullscreen(), DisplayMode::Fullscreen);
    assert_eq!(DisplayMode::X2.toggled_fullscreen(), DisplayMode::Fullscreen);
}

#[test]
fn panels_start_a_generation_when_opened_or_resized_open() {
    let mut p = Panels::new();
    p.resize();
    assert_eq!((p.crt_panel_generation, p.keyboard_panel_generation), (0, 0));
    p.toggle_crt_panel();
    assert!(p.crt_panel_visible);
    assert_eq!(p.crt_panel_generation, 1);
    p.resize();
    assert_eq!((p.crt_panel_generation, p.keyboard_panel_generation), (2, 0));
    p.toggle_crt_panel();
    assert!(!p.crt_panel_visible);
    assert_eq!(p.crt_panel_generation, 2);
    p.toggle_keyboard_panel();
    p.toggle_keyboard_panel();
    p.toggle_keyboard_panel();
    assert!(p.keyboard_panel_visible);
    assert_eq!(p.keyboard_panel_generation, 2);
}

#[test]
fn zoom_levels_size_the_window() {
    assert_eq!(DisplayMode::Half.window_size(), Some((576, 432)));
    assert_eq!(DisplayMode::Normal.window_size(), Some((1152, 864)));
    assert_eq!(DisplayMode::X2.window_size(), Some((2304, 1728)));
    assert_eq!(DisplayMode::Fullscreen.window_size(), None);
}
