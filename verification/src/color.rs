//! Colours: `[r, g, b]` triples, their `COLORREF` packing and their
//! six-digit hexadecimal text in the settings file.
use vstd::prelude::*;
use crate::text;
use crate::text::CharClass;

verus! {

/// The GDI `COLORREF` packing of a colour: red in the low byte, then green,
/// then blue.
pub open spec fn colorref_spec(c: [u8; 3]) -> u32 {
    (c@[0] as u32) | ((c@[1] as u32) << 8u32) | ((c@[2] as u32) << 16u32)
}

/// Packs `[r, g, b]` as a `COLORREF` value.
pub fn rgb_to_colorref(c: [u8; 3]) -> (r: u32)
    ensures
        r == colorref_spec(c),
{
    c[0] as u32 | ((c[1] as u32) << 8u32) | ((c[2] as u32) << 16u32)
}

/// Unpacks the colour of a `COLORREF` value (what the colour dialog hands
/// back); the top byte is ignored.
pub fn colorref_to_rgb(v: u32) -> (c: [u8; 3])
    ensures
        c@ == seq![(v & 0xFF) as u8, ((v >> 8u32) & 0xFF) as u8, ((v >> 16u32) & 0xFF) as u8],
{
    let c = [(v & 0xFF) as u8, ((v >> 8u32) & 0xFF) as u8, ((v >> 16u32) & 0xFF) as u8];
    assert(c@ =~= seq![(v & 0xFF) as u8, ((v >> 8u32) & 0xFF) as u8, ((v >> 16u32) & 0xFF) as u8]);
    c
}

/// Unpacking a packed colour gives the colour back.
pub proof fn lemma_colorref_round_trip(c: [u8; 3])
    ensures
        ({
            let v = colorref_spec(c);
            seq![(v & 0xFF) as u8, ((v >> 8u32) & 0xFF) as u8, ((v >> 16u32) & 0xFF) as u8] == c@
        }),
{
    let r = c@[0];
    let g = c@[1];
    let b = c@[2];
    let v = colorref_spec(c);
    assert(v == (r as u32) | ((g as u32) << 8u32) | ((b as u32) << 16u32));
    assert((((r as u32) | ((g as u32) << 8u32) | ((b as u32) << 16u32)) & 0xFF) as u8 == r)
        by (bit_vector);
    assert(((((r as u32) | ((g as u32) << 8u32) | ((b as u32) << 16u32)) >> 8u32) & 0xFF) as u8
        == g) by (bit_vector);
    assert(((((r as u32) | ((g as u32) << 8u32) | ((b as u32) << 16u32)) >> 16u32) & 0xFF) as u8
        == b) by (bit_vector);
    assert(seq![(v & 0xFF) as u8, ((v >> 8u32) & 0xFF) as u8, ((v >> 16u32) & 0xFF) as u8] =~= c@);
}

// ---------------------------------------------------------------------
// Hexadecimal text
// ---------------------------------------------------------------------

/// An upper-case hexadecimal digit, as `{:X}` writes it.
pub open spec fn hex_upper(d: int) -> char {
    if d < 10 {
        text::digit_char(d)
    } else {
        (d - 10 + 65) as char
    }
}

/// `{:02X}` of a byte.
pub open spec fn hex_byte_text(b: u8) -> Seq<char> {
    seq![hex_upper(b as int / 16), hex_upper(b as int % 16)]
}

/// `{:02X}{:02X}{:02X}` of a colour: the text the settings file holds.
pub open spec fn color_hex_text(c: [u8; 3]) -> Seq<char> {
    hex_byte_text(c@[0]) + hex_byte_text(c@[1]) + hex_byte_text(c@[2])
}

/// The value of a hexadecimal digit in either case, as `char::to_digit(16)`
/// gives it.
pub open spec fn hex_digit_value(c: char) -> Option<int> {
    if '0' <= c && c <= '9' {
        Some(c as int - '0' as int)
    } else if 'a' <= c && c <= 'f' {
        Some(c as int - 'a' as int + 10)
    } else if 'A' <= c && c <= 'F' {
        Some(c as int - 'A' as int + 10)
    } else {
        None
    }
}

/// What `u8::from_str_radix(.., 16)` gives for a two-character text: two
/// hexadecimal digits, or `+` and one digit.
pub open spec fn hex_pair(a: char, b: char) -> Option<u8> {
    if a == '+' {
        match hex_digit_value(b) {
            Some(y) => Some(y as u8),
            None => None,
        }
    } else {
        match (hex_digit_value(a), hex_digit_value(b)) {
            (Some(x), Some(y)) => Some((x * 16 + y) as u8),
            _ => None,
        }
    }
}

/// The part of a colour value that is read as hexadecimal: the text without
/// surrounding white space and without leading `#` characters.
pub open spec fn color_hex_body(s: Seq<char>) -> Seq<char> {
    text::trim_start_by(text::trim_ws(s), CharClass::Hash)
}

/// What `parse_color_hex` reads.
pub open spec fn parse_color_hex_spec(s: Seq<char>) -> Option<[u8; 3]> {
    let t = color_hex_body(s);
    if t.len() == 6 {
        match (hex_pair(t[0], t[1]), hex_pair(t[2], t[3]), hex_pair(t[4], t[5])) {
            (Some(r), Some(g), Some(b)) => Some([r, g, b]),
            _ => None,
        }
    } else {
        None
    }
}

/// Whether byte offset `b` of the UTF-8 form of `s` starts a character.
pub open spec fn is_byte_boundary(s: Seq<char>, b: int) -> bool {
    exists|i: int| 0 <= i <= s.len() && #[trigger] text::utf8_len(s.take(i)) == b
}

/// The colour text can be cut into its three two-byte parts. The text is
/// sliced by bytes, and a cut that falls inside a character is an error
/// (a panic), so the readers require this.
pub open spec fn color_hex_cuttable(s: Seq<char>) -> bool {
    let t = color_hex_body(s);
    text::utf8_len(t) == 6 ==> is_byte_boundary(t, 2) && is_byte_boundary(t, 4)
}

fn hex_upper_char(d: u8) -> (c: char)
    requires
        d < 16,
    ensures
        c == hex_upper(d as int),
{
    if d < 10 {
        ((d + 48) as u8) as char
    } else {
        ((d - 10 + 65) as u8) as char
    }
}

/// `{:02X}{:02X}{:02X}` of a colour.
pub fn fmt_color_hex(c: [u8; 3]) -> (s: String)
    ensures
        s@ == color_hex_text(c),
{
    let mut v: Vec<char> = Vec::new();
    v.push(hex_upper_char(c[0] / 16));
    v.push(hex_upper_char(c[0] % 16));
    v.push(hex_upper_char(c[1] / 16));
    v.push(hex_upper_char(c[1] % 16));
    v.push(hex_upper_char(c[2] / 16));
    v.push(hex_upper_char(c[2] % 16));
    assert(v@ =~= color_hex_text(c));
    text::string_of(v.as_slice())
}

fn hex_digit(c: char) -> (r: Option<u8>)
    ensures
        r matches Some(x) ==> hex_digit_value(c) == Some(x as int),
        r is None ==> hex_digit_value(c) is None,
{
    if '0' <= c && c <= '9' {
        Some((c as u32 - '0' as u32) as u8)
    } else if 'a' <= c && c <= 'f' {
        Some((c as u32 - 'a' as u32 + 10) as u8)
    } else if 'A' <= c && c <= 'F' {
        Some((c as u32 - 'A' as u32 + 10) as u8)
    } else {
        None
    }
}

/// `u8::from_str_radix(.., 16)` on the two characters `a`, `b`.
pub fn hex_byte(a: char, b: char) -> (r: Option<u8>)
    ensures
        r == hex_pair(a, b),
{
    if a == '+' {
        hex_digit(b)
    } else {
        match (hex_digit(a), hex_digit(b)) {
            (Some(x), Some(y)) => Some(x * 16 + y),
            _ => None,
        }
    }
}

/// Reads a colour written as six hexadecimal digits, with optional
/// surrounding white space and leading `#`.
pub fn parse_color_hex(s: &str) -> (r: Option<[u8; 3]>)
    requires
        color_hex_cuttable(s@),
    ensures
        r == parse_color_hex_spec(s@),
{
    let v = text::chars_of(s);
    parse_color_hex_chars(v.as_slice())
}

/// `parse_color_hex` on the characters `s`.
pub fn parse_color_hex_chars(s: &[char]) -> (r: Option<[u8; 3]>)
    requires
        color_hex_cuttable(s@),
    ensures
        r == parse_color_hex_spec(s@),
{
    let t1 = text::trim_chars(s, CharClass::WhiteSpace);
    let t = text::trim_start_chars(t1.as_slice(), CharClass::Hash);
    if t.len() != 6 {
        return None;
    }
    let r = hex_byte(t[0], t[1]);
    let g = hex_byte(t[2], t[3]);
    let b = hex_byte(t[4], t[5]);
    match (r, g, b) {
        (Some(r), Some(g), Some(b)) => Some([r, g, b]),
        _ => None,
    }
}

/// Whether `parse_color_hex_chars` takes `s`: a colour text whose byte cuts
/// fall inside a character is refused (slicing it would panic).
pub fn color_hex_is_cuttable(s: &[char]) -> (r: bool)
    ensures
        r == color_hex_cuttable(s@),
{
    let t1 = text::trim_chars(s, CharClass::WhiteSpace);
    let t = text::trim_start_chars(t1.as_slice(), CharClass::Hash);
    let ghost tv = t@;
    let mut acc: u64 = 0;
    let mut hit2 = false;
    let mut hit4 = false;
    let mut i: usize = 0;
    assert(tv.take(0) =~= Seq::<char>::empty());
    while i < t.len()
        invariant
            tv == t@,
            tv == color_hex_body(s@),
            i <= tv.len(),
            acc as int == text::utf8_len(tv.take(i as int)),
            acc <= 6,
            hit2 == (exists|j: int| 0 <= j <= i && #[trigger] text::utf8_len(tv.take(j)) == 2),
            hit4 == (exists|j: int| 0 <= j <= i && #[trigger] text::utf8_len(tv.take(j)) == 4),
        decreases tv.len() - i,
    {
        assert(tv.take(i + 1).drop_last() =~= tv.take(i as int));
        acc = acc + text::utf8_width_of(t[i]);
        i = i + 1;
        assert(text::utf8_len(tv.take(i as int)) == acc as int);
        if acc > 6 {
            proof {
                text::lemma_utf8_len_prefix(tv, i as int);
                assert(text::utf8_len(tv) > 6);
                assert(color_hex_body(s@) == tv);
            }
            return true;
        }
        hit2 = hit2 || acc == 2;
        hit4 = hit4 || acc == 4;
    }
    assert(tv.take(tv.len() as int) =~= tv);
    acc != 6 || (hit2 && hit4)
}

proof fn lemma_hex_upper_value(d: int)
    requires
        0 <= d < 16,
    ensures
        hex_digit_value(hex_upper(d)) == Some(d),
{
}

/// The hexadecimal text of a colour reads back as that colour.
pub proof fn lemma_color_hex_round_trip(c: [u8; 3])
    ensures
        color_hex_cuttable(color_hex_text(c)),
        parse_color_hex_spec(color_hex_text(c)) == Some(c),
{
    let t = color_hex_text(c);
    assert forall|k: int| 0 <= k < 3 implies hex_pair(
        hex_upper(c@[k] as int / 16),
        hex_upper(c@[k] as int % 16),
    ) == Some(c@[k]) by {
        lemma_hex_upper_value(c@[k] as int / 16);
        lemma_hex_upper_value(c@[k] as int % 16);
        assert(hex_upper(c@[k] as int / 16) != '+');
    }
    assert(t.len() == 6);
    assert forall|i: int| 0 <= i < t.len() implies (#[trigger] t[i] as u32) < 0x80 by {}
    text::lemma_utf8_len_ascii(t);
    text::lemma_utf8_len_ascii(t.take(2));
    text::lemma_utf8_len_ascii(t.take(4));
    assert(!text::is_white_space(t[0]) && !text::is_white_space(t[5]) && t[0] != '#');
    text::lemma_trim_noop(t, CharClass::WhiteSpace);
    assert(text::trim_start_by(t, CharClass::Hash) == t);
    assert(color_hex_body(t) == t);
    assert(text::utf8_len(t.take(2)) == 2);
    assert(text::utf8_len(t.take(4)) == 4);
    let r = parse_color_hex_spec(t);
    assert(r == Some([c@[0], c@[1], c@[2]]));
    assert([c@[0], c@[1], c@[2]] =~= c);
}

/// Whether `ch` is a hexadecimal digit in either case.
pub open spec fn is_hex_char(ch: char) -> bool {
    ('0' <= ch && ch <= '9') || ('a' <= ch && ch <= 'f') || ('A' <= ch && ch <= 'F')
}

/// The value of a hexadecimal digit: `0`-`9` are 0 to 9, `a`-`f` and `A`-`F`
/// are 10 to 15.
pub open spec fn hex_char_value(ch: char) -> int {
    if '0' <= ch && ch <= '9' {
        ch as int - 48
    } else if 'a' <= ch && ch <= 'f' {
        ch as int - 87
    } else {
        ch as int - 55
    }
}

/// The colour text is six upper-case hexadecimal digits: red in the first
/// two, green in the next two, blue in the last two, the high digit first.
pub proof fn lemma_color_hex_layout(c: [u8; 3])
    ensures
        ({
            let t = color_hex_text(c);
            &&& t.len() == 6
            &&& forall|i: int|
                0 <= i < 6 ==> ('0' <= #[trigger] t[i] <= '9' || 'A' <= t[i] <= 'F')
            &&& hex_char_value(t[0]) * 16 + hex_char_value(t[1]) == c@[0]
            &&& hex_char_value(t[2]) * 16 + hex_char_value(t[3]) == c@[1]
            &&& hex_char_value(t[4]) * 16 + hex_char_value(t[5]) == c@[2]
        }),
{
    let t = color_hex_text(c);
    assert(t.len() == 6);
    assert forall|i: int| 0 <= i < 6 implies ('0' <= #[trigger] t[i] <= '9' || 'A' <= t[i] <= 'F')
        && hex_char_value(t[i]) == (if i % 2 == 0 {
        c@[i / 2] as int / 16
    } else {
        c@[i / 2] as int % 16
    }) by {
        let d = if i % 2 == 0 {
            c@[i / 2] as int / 16
        } else {
            c@[i / 2] as int % 16
        };
        assert(t[i] == hex_upper(d));
    }
    assert(hex_char_value(t[0]) == c@[0] as int / 16);
    assert(hex_char_value(t[1]) == c@[0] as int % 16);
    assert(hex_char_value(t[2]) == c@[1] as int / 16);
    assert(hex_char_value(t[3]) == c@[1] as int % 16);
    assert(hex_char_value(t[4]) == c@[2] as int / 16);
    assert(hex_char_value(t[5]) == c@[2] as int % 16);
}

/// Six hexadecimal digits, in either case, read as the colour whose red,
/// green and blue are the first, second and third pair of digits, the high
/// digit first.
pub proof fn lemma_color_hex_reads_pairs(t: Seq<char>)
    requires
        t.len() == 6,
        forall|i: int| 0 <= i < 6 ==> is_hex_char(#[trigger] t[i]),
    ensures
        parse_color_hex_spec(t) matches Some(c) && c@[0] == hex_char_value(t[0]) * 16
            + hex_char_value(t[1]) && c@[1] == hex_char_value(t[2]) * 16 + hex_char_value(t[3])
            && c@[2] == hex_char_value(t[4]) * 16 + hex_char_value(t[5]),
{
    assert(is_hex_char(t[0]) && is_hex_char(t[5]));
    text::lemma_trim_noop(t, CharClass::WhiteSpace);
    assert(text::trim_start_by(t, CharClass::Hash) == t);
    assert(color_hex_body(t) == t);
    assert forall|i: int| 0 <= i < 6 implies hex_digit_value(#[trigger] t[i]) == Some(
        hex_char_value(t[i]),
    ) && 0 <= hex_char_value(t[i]) < 16 && t[i] != '+' by {
        assert(is_hex_char(t[i]));
    }
    assert(hex_digit_value(t[0]) == Some(hex_char_value(t[0])));
    assert(hex_digit_value(t[1]) == Some(hex_char_value(t[1])));
    assert(hex_digit_value(t[2]) == Some(hex_char_value(t[2])));
    assert(hex_digit_value(t[3]) == Some(hex_char_value(t[3])));
    assert(hex_digit_value(t[4]) == Some(hex_char_value(t[4])));
    assert(hex_digit_value(t[5]) == Some(hex_char_value(t[5])));
    assert(t[0] != '+' && t[2] != '+' && t[4] != '+');
}

} // verus!
