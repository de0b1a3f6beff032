use mickey::settings::{
    apply_ini_line, device_for_entry, entry_for_device, hotkey_from_field, ini_line_is_readable,
    load_settings_lines, offset_field_accepts, offset_from_field, opacity_from_field,
    overlay_position, settings_differ, settings_ini_lines, size_from_field, slider_from_field,
    slider_text, Settings,
};
use mickey::state::MuteState;

fn sample_file() -> Vec<String> {
    [
        "[Settings]",
        "show_tray_icon=true",
        "show_overlay=true",
        "glyph_size=24",
        "glyph_corner=top-left",
        "offset_x=8",
        "offset_y=8",
        "glyph_shape=icon",
        "device_override=",
        "hotkey_str=Ctrl+Shift+M",
        "hotkey_mode=toggle",
        "color_muted=FF0000",
        "opacity_muted=100",
        "color_unmuted=00FF00",
        "opacity_unmuted=100",
        "color_error=808080",
        "opacity_error=100",
    ]
    .iter()
    .map(|s| s.to_string())
    .collect()
}

fn lines(v: &[&str]) -> Vec<String> {
    v.iter().map(|s| s.to_string()).collect()
}

#[test]
fn defaults_match_the_documented_values() {
    let d = Settings::default();
    assert!(d.show_tray_icon && d.show_overlay);
    assert_eq!(d.glyph_size, 24);
    assert_eq!((d.glyph_corner, d.offset_x, d.offset_y, d.glyph_shape), (0, 8, 8, 0));
    assert_eq!(d.device_override, "");
    assert_eq!(d.hotkey_str, "");
    assert_eq!(d.hotkey_mode, 0);
    assert_eq!(d.color_muted, [255, 0, 0]);
    assert_eq!(d.color_unmuted, [0, 255, 0]);
    assert_eq!(d.color_error, [128, 128, 128]);
    assert_eq!((d.opacity_muted, d.opacity_unmuted, d.opacity_error), (100, 100, 100));
}

#[test]
fn sample_file_loads() {
    let mut base = Settings::default();
    base.glyph_size = 50;
    base.hotkey_mode = 2;
    let s = load_settings_lines(&sample_file(), base);
    assert_eq!(s.glyph_size, 24);
    assert_eq!(s.hotkey_str, "Ctrl+Shift+M");
    assert_eq!(s.hotkey_mode, 0);
    assert_eq!(s.color_error, [0x80, 0x80, 0x80]);
    let mut expected = Settings::default();
    expected.hotkey_str = "Ctrl+Shift+M".to_string();
    assert!(!settings_differ(&s, &expected));
}

#[test]
fn default_settings_write_the_sample_file() {
    let mut d = Settings::default();
    d.hotkey_str = "Ctrl+Shift+M".to_string();
    assert_eq!(settings_ini_lines(&d), sample_file());
}

#[test]
fn written_settings_read_back() {
    let mut s = Settings::default();
    s.show_tray_icon = false;
    s.glyph_size = 64;
    s.glyph_corner = 3;
    s.offset_x = -9999;
    s.offset_y = 1234;
    s.glyph_shape = 1;
    s.device_override = "{0.0.1.00000000}.{abc}".to_string();
    s.hotkey_str = "Ctrl+Alt+F5".to_string();
    s.hotkey_mode = 1;
    s.color_muted = [1, 2, 3];
    s.opacity_error = 0;
    let back = load_settings_lines(&settings_ini_lines(&s), Settings::default());
    assert!(!settings_differ(&back, &s));
}

#[test]
fn numbers_are_clamped_and_bad_values_ignored() {
    let s = load_settings_lines(
        &lines(&["glyph_size=500", "offset_x=-20000", "offset_y = 42 ", "opacity_muted=250",
            "opacity_unmuted=-5", "show_overlay=yes", "color_muted=#12ab34"]),
        Settings::default(),
    );
    assert_eq!(s.glyph_size, 64);
    assert_eq!(s.offset_x, -9999);
    assert_eq!(s.offset_y, 42);
    assert_eq!(s.opacity_muted, 100);
    assert_eq!(s.opacity_unmuted, 100);
    assert!(s.show_overlay);
    assert_eq!(s.color_muted, [0x12, 0xab, 0x34]);
}

#[test]
fn codes_by_name_or_number_and_unknown_resets() {
    let s = load_settings_lines(&lines(&["glyph_corner=2", "glyph_shape=square", "hotkey_mode=ptm"]),
        Settings::default());
    assert_eq!((s.glyph_corner, s.glyph_shape, s.hotkey_mode), (2, 2, 2));
    let s = load_settings_lines(&lines(&["glyph_corner=middle", "glyph_shape=star", "hotkey_mode=x"]), s);
    assert_eq!((s.glyph_corner, s.glyph_shape, s.hotkey_mode), (0, 0, 0));
}

#[test]
fn comments_blank_lines_and_device_keywords() {
    let mut s = Settings::default();
    s.device_override = "dev".to_string();
    for l in ["; device_override=x", "# device_override=x", "   ", "no equals sign"] {
        apply_ini_line(&mut s, l);
    }
    assert_eq!(s.device_override, "dev");
    apply_ini_line(&mut s, "device_override=default");
    assert_eq!(s.device_override, "");
    apply_ini_line(&mut s, "selected_device_id=abc=def");
    assert_eq!(s.device_override, "abc=def");
}

#[test]
fn uncuttable_colour_lines_are_flagged() {
    assert!(ini_line_is_readable("color_muted=FF0000"));
    assert!(ini_line_is_readable("color_muted=éé00"));
    assert!(!ini_line_is_readable("color_muted=aé000"));
    assert!(ini_line_is_readable("hotkey_str=aé000"));
}

#[test]
fn settings_window_fields() {
    assert_eq!(size_from_field("24\0\0\0"), 24);
    assert_eq!(size_from_field("99"), 64);
    assert_eq!(size_from_field(""), 32);
    assert_eq!(size_from_field("0"), 1);
    assert_eq!(offset_from_field("-"), 0);
    assert_eq!(offset_from_field(""), 0);
    assert_eq!(offset_from_field("-12345"), -9999);
    assert_eq!(offset_from_field("x"), 0);
    assert_eq!(offset_from_field(" 17 \0"), 17);
    assert_eq!(opacity_from_field("55"), 55);
    assert_eq!(opacity_from_field("300"), 100);
    assert_eq!(opacity_from_field("150"), 100);
    assert_eq!(opacity_from_field(""), 100);
    assert_eq!(slider_from_field("300"), 100);
    assert_eq!(slider_from_field("0"), 0);
    assert_eq!(hotkey_from_field(" Ctrl+M \0\0"), "Ctrl+M");
    assert_eq!(slider_text(42), "42");
}

#[test]
fn device_list_entries() {
    let ids: Vec<String> = vec!["a".to_string(), "b".to_string(), "a".to_string()];
    assert_eq!(entry_for_device(&ids, "a"), 3);
    assert_eq!(entry_for_device(&ids, "b"), 2);
    assert_eq!(entry_for_device(&ids, ""), 0);
    assert_eq!(entry_for_device(&ids, "zzz"), 0);
    assert_eq!(device_for_entry(&ids, 0), "");
    assert_eq!(device_for_entry(&ids, 2), "b");
    assert_eq!(device_for_entry(&ids, 9), "");
    assert_eq!(device_for_entry(&ids, entry_for_device(&ids, "b")), "b");
}

#[test]
fn offset_fields_filter_minus() {
    assert!(offset_field_accepts(b'5', 3, 3, "12"));
    assert!(offset_field_accepts(8, 1, 1, "12"));
    assert!(!offset_field_accepts(b'a', 0, 0, ""));
    assert!(offset_field_accepts(b'-', 0, 0, "12"));
    assert!(!offset_field_accepts(b'-', 1, 1, "12"));
    assert!(!offset_field_accepts(b'-', 0, 0, "-12"));
    assert!(offset_field_accepts(b'-', 0, 3, "-12\0\0"));
}

#[test]
fn overlay_corners() {
    assert_eq!(overlay_position(0, 8, 9, 24, 1920, 1080), (8, 9));
    assert_eq!(overlay_position(1, 8, 9, 24, 1920, 1080), (1888, 9));
    assert_eq!(overlay_position(2, 8, 9, 24, 1920, 1080), (8, 1047));
    assert_eq!(overlay_position(3, -8, 9, 24, 1920, 1080), (1904, 1047));
    assert_eq!(overlay_position(u32::MAX, 0, 0, 24, 1920, 1080), (1896, 1056));
}

#[test]
fn state_colours_and_opacities() {
    let mut s = Settings::default();
    s.opacity_error = 40;
    assert_eq!(s.color_for(MuteState::Muted), [255, 0, 0]);
    assert_eq!(s.color_for(MuteState::Unmuted), [0, 255, 0]);
    assert_eq!(s.color_for(MuteState::Error), [128, 128, 128]);
    assert_eq!(s.opacity_for(MuteState::Error), 40);
    assert_eq!(s.opacity_for(MuteState::Muted), 100);
}

#[test]
fn differ_sees_every_field() {
    let a = Settings::default();
    assert!(!settings_differ(&a, &a.clone()));
    let mut b = a.clone();
    b.device_override = "x".to_string();
    assert!(settings_differ(&a, &b));
    let mut b = a.clone();
    b.color_error = [128, 128, 129];
    assert!(settings_differ(&a, &b));
}

