use mickey::text::{
    chars_of, i32_text, parse_bool, parse_i32, parse_u32, parse_u8, to_wide, trim_chars, CharClass,
};

fn cs(s: &str) -> Vec<char> {
    s.chars().collect()
}

#[test]
fn parse_i32_follows_std_grammar() {
    for s in ["0", "+7", "-7", "007", "2147483647", "-2147483648", "", "-", "+", "2147483648",
        "-2147483649", "1 ", " 1", "1_0", "+-1", "abc", "١٢"] {
        assert_eq!(parse_i32(&cs(s)), s.parse::<i32>().ok(), "input {:?}", s);
    }
}

#[test]
fn parse_u8_and_u32_follow_std_grammar() {
    for s in ["0", "+255", "255", "256", "-0", "-1", "", "+", "100", "4294967295", "4294967296"] {
        assert_eq!(parse_u8(&cs(s)), s.parse::<u8>().ok(), "u8 input {:?}", s);
        assert_eq!(parse_u32(&cs(s)), s.parse::<u32>().ok(), "u32 input {:?}", s);
    }
}

#[test]
fn parse_bool_takes_only_true_and_false() {
    assert_eq!(parse_bool(&cs("true")), Some(true));
    assert_eq!(parse_bool(&cs("false")), Some(false));
    assert_eq!(parse_bool(&cs("True")), None);
    assert_eq!(parse_bool(&cs("1")), None);
}

#[test]
fn i32_text_writes_like_display() {
    for n in [0, 7, -7, 9999, -9999, i32::MAX, i32::MIN] {
        assert_eq!(i32_text(n), n.to_string());
        assert_eq!(parse_i32(&cs(&i32_text(n))), Some(n));
    }
}

#[test]
fn trim_matches_str_trim() {
    for s in ["  a b  ", "\u{3000}x\u{85}", "\t\n", "", "\u{a0}y\u{2009}"] {
        let t: String = trim_chars(&cs(s), CharClass::WhiteSpace).into_iter().collect();
        assert_eq!(t, s.trim());
    }
    let t: String = trim_chars(&cs("\0\0ab\0"), CharClass::Nul).into_iter().collect();
    assert_eq!(t, "ab");
}

#[test]
fn chars_of_keeps_order() {
    assert_eq!(chars_of("héllo"), vec!['h', 'é', 'l', 'l', 'o']);
}

#[test]
fn to_wide_encodes_utf16_with_nul() {
    for s in ["MicKey Mute", "", "é€😀"] {
        let mut expected: Vec<u16> = s.encode_utf16().collect();
        expected.push(0);
        assert_eq!(to_wide(s), expected);
    }
}
