use mickey::color::{colorref_to_rgb, fmt_color_hex, parse_color_hex, rgb_to_colorref};

#[test]
fn colorref_packs_red_low() {
    assert_eq!(rgb_to_colorref([0x12, 0x34, 0x56]), 0x0056_3412);
}

#[test]
fn colorref_unpacks_ignoring_top_byte() {
    assert_eq!(colorref_to_rgb(0xAB56_3412), [0x12, 0x34, 0x56]);
}

#[test]
fn fmt_color_hex_is_upper_case() {
    assert_eq!(fmt_color_hex([255, 0, 128]), "FF0080");
    assert_eq!(fmt_color_hex([0x0a, 0xbc, 0x01]), "0ABC01");
}

#[test]
fn parse_color_hex_reads_trimmed_and_hashed() {
    assert_eq!(parse_color_hex("  ##ff0080 "), Some([255, 0, 128]));
    assert_eq!(parse_color_hex("+F+F+F"), Some([15, 15, 15]));
    assert_eq!(parse_color_hex("FF00"), None);
    assert_eq!(parse_color_hex("GG0000"), None);
    assert_eq!(parse_color_hex("-F0000"), None);
}
