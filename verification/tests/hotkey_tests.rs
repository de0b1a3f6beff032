use mickey::hotkey::{
    hotkey_display, hotkey_registration, hotkey_scan_char, is_hotkey_release, is_modifier_vk,
    key_name_lparam, parse_hotkey,
};

#[test]
fn default_hotkey_parses() {
    assert_eq!(hotkey_scan_char("Ctrl+Shift+M"), Some('M' as u16));
    assert_eq!(parse_hotkey("Ctrl+Shift+M", 0x004D), Some((0x0006, 0x4D)));
    assert_eq!(parse_hotkey("Ctrl+Alt+M", 0x014D), Some((0x0003, 0x4D)));
}

#[test]
fn named_keys_need_no_layout() {
    assert_eq!(hotkey_scan_char("Win+F12"), None);
    assert_eq!(parse_hotkey("Win+F12", -1), Some((0x0008, 0x7B)));
    assert_eq!(parse_hotkey("Page Down", 0), Some((0, 0x22)));
    assert_eq!(parse_hotkey("Ctrl+Shift+Alt+Win+Scroll Lock", 0), Some((0x000F, 0x91)));
}

#[test]
fn single_char_key_is_upper_cased_for_the_layout() {
    assert_eq!(hotkey_scan_char("Alt+m"), Some('M' as u16));
    assert_eq!(hotkey_scan_char("7"), Some('7' as u16));
    assert_eq!(parse_hotkey("Alt+m", 0x7F4D), Some((0x0001, 0x4D)));
}

#[test]
fn unparseable_hotkeys() {
    assert_eq!(parse_hotkey("", 0x41), None);
    assert_eq!(parse_hotkey("Ctrl+", 0x41), None);
    assert_eq!(parse_hotkey("Ctrl+é", 0x41), None);
    assert_eq!(parse_hotkey("Ctrl+Whatever", 0x41), None);
    assert_eq!(hotkey_scan_char("Ctrl+é"), None);
}

#[test]
fn unknown_modifiers_are_ignored() {
    assert_eq!(parse_hotkey("Hyper+Ctrl+Ctrl+Q", 0x51), Some((0x0002, 0x51)));
    assert_eq!(parse_hotkey("+", 0), None);
    assert_eq!(parse_hotkey("ctrl+Q", 0x51), Some((0, 0x51)));
}

#[test]
fn registration_adds_norepeat() {
    assert_eq!(hotkey_registration("Ctrl+Shift+M", 0x4D), Some((0x4006, 0x4D)));
    assert_eq!(hotkey_registration("", 0x4D), None);
}

#[test]
fn recorded_hotkey_text() {
    assert_eq!(hotkey_display(true, true, false, false, "M\0\0\0"), "Ctrl+Shift+M");
    assert_eq!(hotkey_display(false, false, false, false, "F5"), "F5");
    assert_eq!(hotkey_display(true, false, true, true, "Page Up"), "Ctrl+Alt+Win+Page Up");
    let shown = hotkey_display(true, false, true, false, "K");
    assert_eq!(parse_hotkey(&shown, 0x4B), Some((0x0003, 0x4B)));
}

#[test]
fn bare_modifiers_keep_recording() {
    for vk in [0x10, 0x11, 0x12, 0xA0, 0xA5, 0x5B, 0x5C] {
        assert!(is_modifier_vk(vk));
    }
    for vk in [0x13, 0x41, 0x9F, 0xA6, 0x5A, 0x5D] {
        assert!(!is_modifier_vk(vk));
    }
}

#[test]
fn key_name_lparam_marks_extended_keys() {
    assert_eq!(key_name_lparam(0x41, 0x1E), 0x001E_0000);
    assert_eq!(key_name_lparam(0x25, 0x4B), 0x014B_0000);
    assert_eq!(key_name_lparam(0x6F, 0x35), 0x0135_0000);
    assert_eq!(key_name_lparam(0x2F, 0x0000_FFFF), (0xFFFF_0000u32 | 0x0100_0000) as i32);
}

#[test]
fn hook_release_decision() {
    assert!(is_hotkey_release(0x0101, true, Some(0x4D), 0x4D));
    assert!(is_hotkey_release(0x0105, true, Some(0x4D), 0x4D));
    assert!(!is_hotkey_release(0x0100, true, Some(0x4D), 0x4D));
    assert!(!is_hotkey_release(0x0101, false, Some(0x4D), 0x4D));
    assert!(!is_hotkey_release(0x0101, true, None, 0x4D));
    assert!(!is_hotkey_release(0x0101, true, Some(0x4E), 0x4D));
}
