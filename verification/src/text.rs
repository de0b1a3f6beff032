//! Character-level text helpers shared by the settings and hotkey parsers:
//! trimming as `str::trim` does it, and decimal numbers as `str::parse`
//! reads them and `{}` writes them.
use vstd::prelude::*;

verus! {

/// `String::push`: appends one character to the string.
#[verifier::external_body]
pub(crate) fn push_char(s: &mut String, c: char)
    ensures
        final(s)@ == old(s)@.push(c),
{
    s.push(c)
}

/// The characters of `s`, in order.
pub fn chars_of(s: &str) -> (v: Vec<char>)
    ensures
        v@ == s@,
{
    let mut v: Vec<char> = Vec::new();
    for c in it: s.chars()
        invariant
            v@ == it.seq().take(it.index() as int),
    {
        v.push(c);
    }
    v
}

/// A string holding the characters of `v`.
pub fn string_of(v: &[char]) -> (s: String)
    ensures
        s@ == v@,
{
    let mut s = String::new();
    let mut i: usize = 0;
    while i < v.len()
        invariant
            i <= v@.len(),
            s@ == v@.take(i as int),
        decreases v@.len() - i,
    {
        push_char(&mut s, v[i]);
        i = i + 1;
    }
    s
}

/// Appends the characters of `extra` to `out`.
pub fn extend_chars(out: &mut Vec<char>, extra: &[char])
    ensures
        final(out)@ == old(out)@ + extra@,
{
    let mut i: usize = 0;
    while i < extra.len()
        invariant
            i <= extra@.len(),
            out@ == old(out)@ + extra@.take(i as int),
        decreases extra@.len() - i,
    {
        out.push(extra[i]);
        i = i + 1;
    }
}

/// Whether the two character sequences are equal.
pub fn chars_eq(a: &[char], b: &[char]) -> (r: bool)
    ensures
        r == (a@ == b@),
{
    if a.len() != b.len() {
        return false;
    }
    let mut i: usize = 0;
    while i < a.len()
        invariant
            a@.len() == b@.len(),
            i <= a@.len(),
            forall|k: int| 0 <= k < i ==> a@[k] == b@[k],
        decreases a@.len() - i,
    {
        if a[i] != b[i] {
            return false;
        }
        i = i + 1;
    }
    assert(a@ =~= b@);
    true
}

/// Whether the characters `a` spell the string `b`.
pub fn chars_eq_str(a: &[char], b: &str) -> (r: bool)
    ensures
        r == (a@ == b@),
{
    let bv = chars_of(b);
    chars_eq(a, bv.as_slice())
}

// ---------------------------------------------------------------------
// Trimming
// ---------------------------------------------------------------------

/// The characters that the trimming functions remove.
#[derive(Clone, Copy, PartialEq, Eq)]
pub enum CharClass {
    /// Unicode `White_Space`, what `char::is_whitespace` accepts.
    WhiteSpace,
    /// The NUL character.
    Nul,
    /// The `#` character.
    Hash,
}

/// Unicode `White_Space`: the characters that `str::trim` removes.
pub open spec fn is_white_space(c: char) -> bool {
    let u = c as u32;
    ||| 0x09 <= u <= 0x0D
    ||| u == 0x20
    ||| u == 0x85
    ||| u == 0xA0
    ||| u == 0x1680
    ||| 0x2000 <= u <= 0x200A
    ||| u == 0x2028
    ||| u == 0x2029
    ||| u == 0x202F
    ||| u == 0x205F
    ||| u == 0x3000
}

pub open spec fn in_class(k: CharClass, c: char) -> bool {
    match k {
        CharClass::WhiteSpace => is_white_space(c),
        CharClass::Nul => c == '\0',
        CharClass::Hash => c == '#',
    }
}

/// `s` without its leading characters of class `k`.
pub open spec fn trim_start_by(s: Seq<char>, k: CharClass) -> Seq<char>
    decreases s.len(),
{
    if s.len() > 0 && in_class(k, s[0]) {
        trim_start_by(s.drop_first(), k)
    } else {
        s
    }
}

/// `s` without its trailing characters of class `k`.
pub open spec fn trim_end_by(s: Seq<char>, k: CharClass) -> Seq<char>
    decreases s.len(),
{
    if s.len() > 0 && in_class(k, s.last()) {
        trim_end_by(s.drop_last(), k)
    } else {
        s
    }
}

/// `s` without leading and trailing characters of class `k`.
pub open spec fn trim_by(s: Seq<char>, k: CharClass) -> Seq<char> {
    trim_end_by(trim_start_by(s, k), k)
}

/// What `str::trim` gives back.
pub open spec fn trim_ws(s: Seq<char>) -> Seq<char> {
    trim_by(s, CharClass::WhiteSpace)
}

pub fn is_white_space_char(c: char) -> (r: bool)
    ensures
        r == is_white_space(c),
{
    let u = c as u32;
    (0x09 <= u && u <= 0x0D) || u == 0x20 || u == 0x85 || u == 0xA0 || u == 0x1680 || (0x2000
        <= u && u <= 0x200A) || u == 0x2028 || u == 0x2029 || u == 0x202F || u == 0x205F || u
        == 0x3000
}

fn char_in_class(k: CharClass, c: char) -> (r: bool)
    ensures
        r == in_class(k, c),
{
    match k {
        CharClass::WhiteSpace => is_white_space_char(c),
        CharClass::Nul => c == '\0',
        CharClass::Hash => c == '#',
    }
}

/// The characters of `s` without leading ones of class `k`.
pub fn trim_start_chars(s: &[char], k: CharClass) -> (r: Vec<char>)
    ensures
        r@ == trim_start_by(s@, k),
{
    let mut i: usize = 0;
    assert(s@.skip(0) =~= s@);
    while i < s.len() && char_in_class(k, s[i])
        invariant
            i <= s@.len(),
            trim_start_by(s@, k) == trim_start_by(s@.skip(i as int), k),
        decreases s@.len() - i,
    {
        assert(s@.skip(i as int).drop_first() =~= s@.skip(i + 1));
        i = i + 1;
    }
    let mut r: Vec<char> = Vec::new();
    let mut j: usize = i;
    while j < s.len()
        invariant
            i <= j <= s@.len(),
            r@ == s@.subrange(i as int, j as int),
        decreases s@.len() - j,
    {
        r.push(s[j]);
        j = j + 1;
    }
    assert(r@ =~= s@.skip(i as int));
    r
}

/// The characters of `s` without trailing ones of class `k`.
pub fn trim_end_chars(s: &[char], k: CharClass) -> (r: Vec<char>)
    ensures
        r@ == trim_end_by(s@, k),
{
    let mut j: usize = s.len();
    assert(s@.take(s@.len() as int) =~= s@);
    while j > 0 && char_in_class(k, s[j - 1])
        invariant
            j <= s@.len(),
            trim_end_by(s@, k) == trim_end_by(s@.take(j as int), k),
        decreases j,
    {
        assert(s@.take(j as int).drop_last() =~= s@.take(j - 1));
        j = j - 1;
    }
    let mut r: Vec<char> = Vec::new();
    let mut i: usize = 0;
    while i < j
        invariant
            i <= j <= s@.len(),
            r@ == s@.take(i as int),
        decreases j - i,
    {
        r.push(s[i]);
        i = i + 1;
    }
    assert(r@ =~= s@.take(j as int));
    r
}

/// The characters of `s` without leading and trailing ones of class `k`.
pub fn trim_chars(s: &[char], k: CharClass) -> (r: Vec<char>)
    ensures
        r@ == trim_by(s@, k),
{
    let a = trim_start_chars(s, k);
    trim_end_chars(a.as_slice(), k)
}

/// Trimming leaves a sequence alone whose ends are outside the class.
pub proof fn lemma_trim_noop(s: Seq<char>, k: CharClass)
    requires
        s.len() > 0 ==> !in_class(k, s[0]) && !in_class(k, s.last()),
    ensures
        trim_by(s, k) == s,
{
}

// ---------------------------------------------------------------------
// Decimal numbers
// ---------------------------------------------------------------------

pub open spec fn is_digit(c: char) -> bool {
    '0' <= c && c <= '9'
}

pub open spec fn digit_val(c: char) -> int {
    c as int - '0' as int
}

pub open spec fn all_digits(s: Seq<char>) -> bool {
    forall|i: int| 0 <= i < s.len() ==> is_digit(#[trigger] s[i])
}

/// The number that a run of decimal digits spells.
pub open spec fn digits_value(s: Seq<char>) -> int
    decreases s.len(),
{
    if s.len() == 0 {
        0
    } else {
        digits_value(s.drop_last()) * 10 + digit_val(s.last())
    }
}

/// A non-empty run of decimal digits, read as a number.
pub open spec fn digit_run(s: Seq<char>) -> Option<int> {
    if s.len() > 0 && all_digits(s) {
        Some(digits_value(s))
    } else {
        None
    }
}

/// The number that `str::parse` reads for a signed integer type, before the
/// range of the type is checked: an optional `+` or `-`, then digits.
pub open spec fn signed_decimal(s: Seq<char>) -> Option<int> {
    if s.len() > 0 && s[0] == '-' {
        match digit_run(s.drop_first()) {
            Some(v) => Some(-v),
            None => None,
        }
    } else if s.len() > 0 && s[0] == '+' {
        digit_run(s.drop_first())
    } else {
        digit_run(s)
    }
}

/// The number that `str::parse` reads for an unsigned integer type, before
/// the range of the type is checked: an optional `+`, then digits.
pub open spec fn unsigned_decimal(s: Seq<char>) -> Option<int> {
    if s.len() > 0 && s[0] == '+' {
        digit_run(s.drop_first())
    } else {
        digit_run(s)
    }
}

/// What `s.parse::<i32>()` gives, as an `Option`.
pub open spec fn parse_i32_spec(s: Seq<char>) -> Option<i32> {
    match signed_decimal(s) {
        Some(v) => if i32::MIN <= v <= i32::MAX {
            Some(v as i32)
        } else {
            None
        },
        None => None,
    }
}

/// What `s.parse::<u8>()` gives, as an `Option`.
pub open spec fn parse_u8_spec(s: Seq<char>) -> Option<u8> {
    match unsigned_decimal(s) {
        Some(v) => if v <= u8::MAX {
            Some(v as u8)
        } else {
            None
        },
        None => None,
    }
}

/// What `s.parse::<u32>()` gives, as an `Option`.
pub open spec fn parse_u32_spec(s: Seq<char>) -> Option<u32> {
    match unsigned_decimal(s) {
        Some(v) => if v <= u32::MAX {
            Some(v as u32)
        } else {
            None
        },
        None => None,
    }
}

/// What `s.parse::<bool>()` gives, as an `Option`.
pub open spec fn parse_bool_spec(s: Seq<char>) -> Option<bool> {
    if s == seq!['t', 'r', 'u', 'e'] {
        Some(true)
    } else if s == seq!['f', 'a', 'l', 's', 'e'] {
        Some(false)
    } else {
        None
    }
}

/// How `{}` writes a `bool`.
pub open spec fn bool_text(b: bool) -> Seq<char> {
    if b {
        seq!['t', 'r', 'u', 'e']
    } else {
        seq!['f', 'a', 'l', 's', 'e']
    }
}

pub open spec fn digit_char(d: int) -> char {
    (d + 48) as char
}

/// How `{}` writes a natural number.
pub open spec fn dec_nat(n: nat) -> Seq<char>
    decreases n,
{
    if n < 10 {
        seq![digit_char(n as int)]
    } else {
        dec_nat(n / 10).push(digit_char((n % 10) as int))
    }
}

/// How `{}` writes an integer.
pub open spec fn dec_int(n: int) -> Seq<char> {
    if n < 0 {
        seq!['-'] + dec_nat((-n) as nat)
    } else {
        dec_nat(n as nat)
    }
}

proof fn lemma_digits_value_step(s: Seq<char>, i: int)
    requires
        0 <= i < s.len(),
    ensures
        digits_value(s.take(i + 1)) == digits_value(s.take(i)) * 10 + digit_val(s[i]),
{
    assert(s.take(i + 1).drop_last() =~= s.take(i));
}

/// A run of digits is worth at least as much as any of its prefixes.
proof fn lemma_digits_value_mono(s: Seq<char>, i: int)
    requires
        0 <= i <= s.len(),
        all_digits(s),
    ensures
        digits_value(s) >= digits_value(s.take(i)) >= 0,
    decreases s.len() - i,
{
    if i == s.len() {
        assert(s.take(i) =~= s);
        lemma_digits_value_nonneg(s);
    } else {
        lemma_digits_value_mono(s, i + 1);
        lemma_digits_value_step(s, i);
        lemma_digits_value_nonneg(s.take(i));
    }
}

proof fn lemma_digits_value_nonneg(s: Seq<char>)
    requires
        all_digits(s),
    ensures
        digits_value(s) >= 0,
    decreases s.len(),
{
    if s.len() > 0 {
        lemma_digits_value_nonneg(s.drop_last());
    }
}

fn is_digit_char(c: char) -> (r: bool)
    ensures
        r == is_digit(c),
{
    '0' <= c && c <= '9'
}

/// Reads the digits `s[start..]` as a number that may not exceed `bound`.
fn digits_at_most(s: &[char], start: usize, bound: u64) -> (r: Option<u64>)
    requires
        start <= s@.len(),
        bound <= 0x1_0000_0000,
    ensures
        r is Some <==> (digit_run(s@.skip(start as int)) is Some && digit_run(
            s@.skip(start as int),
        )->0 <= bound),
        r matches Some(x) ==> x == digit_run(s@.skip(start as int))->0,
{
    let ghost t = s@.skip(start as int);
    if start == s.len() {
        return None;
    }
    let mut acc: u64 = 0;
    let mut i: usize = start;
    while i < s.len()
        invariant
            start <= i <= s@.len(),
            t == s@.skip(start as int),
            bound <= 0x1_0000_0000,
            all_digits(t.take(i - start)),
            acc as int == digits_value(t.take(i - start)),
            acc <= bound,
        decreases s@.len() - i,
    {
        let c = s[i];
        if !is_digit_char(c) {
            assert(t[i - start] == c);
            return None;
        }
        proof {
            lemma_digits_value_step(t, i - start);
            assert(t.take(i - start + 1) =~= t.take(i - start).push(c));
        }
        acc = acc * 10 + (c as u32 - '0' as u32) as u64;
        i = i + 1;
        if acc > bound {
            proof {
                if all_digits(t) {
                    lemma_digits_value_mono(t, i - start);
                }
            }
            return None;
        }
    }
    assert(t.take(i - start) =~= t);
    Some(acc)
}

/// `s.parse::<i32>().ok()` on the characters `s`.
pub fn parse_i32(s: &[char]) -> (r: Option<i32>)
    ensures
        r == parse_i32_spec(s@),
{
    if s.len() > 0 && s[0] == '-' {
        assert(s@.drop_first() =~= s@.skip(1));
        match digits_at_most(s, 1, 0x8000_0000) {
            Some(v) => Some((0 - (v as i64)) as i32),
            None => None,
        }
    } else if s.len() > 0 && s[0] == '+' {
        assert(s@.drop_first() =~= s@.skip(1));
        match digits_at_most(s, 1, 0x7fff_ffff) {
            Some(v) => Some(v as i32),
            None => None,
        }
    } else {
        assert(s@ =~= s@.skip(0));
        match digits_at_most(s, 0, 0x7fff_ffff) {
            Some(v) => Some(v as i32),
            None => None,
        }
    }
}

/// Reads an optional `+` and digits, the way `str::parse` does for an
/// unsigned type, with `bound` the largest value of the type.
fn parse_unsigned_at_most(s: &[char], bound: u64) -> (r: Option<u64>)
    requires
        bound <= 0xffff_ffff,
    ensures
        r is Some <==> (unsigned_decimal(s@) is Some && unsigned_decimal(s@)->0 <= bound),
        r matches Some(x) ==> x == unsigned_decimal(s@)->0,
{
    if s.len() > 0 && s[0] == '+' {
        assert(s@.drop_first() =~= s@.skip(1));
        digits_at_most(s, 1, bound)
    } else {
        assert(s@ =~= s@.skip(0));
        digits_at_most(s, 0, bound)
    }
}

/// `s.parse::<u8>().ok()` on the characters `s`.
pub fn parse_u8(s: &[char]) -> (r: Option<u8>)
    ensures
        r == parse_u8_spec(s@),
{
    match parse_unsigned_at_most(s, 255) {
        Some(v) => Some(v as u8),
        None => None,
    }
}

/// `s.parse::<u32>().ok()` on the characters `s`.
pub fn parse_u32(s: &[char]) -> (r: Option<u32>)
    ensures
        r == parse_u32_spec(s@),
{
    match parse_unsigned_at_most(s, 0xffff_ffff) {
        Some(v) => Some(v as u32),
        None => None,
    }
}

/// `s.parse::<bool>().ok()` on the characters `s`.
pub fn parse_bool(s: &[char]) -> (r: Option<bool>)
    ensures
        r == parse_bool_spec(s@),
{
    let t = ['t', 'r', 'u', 'e'];
    let f = ['f', 'a', 'l', 's', 'e'];
    assert(t@ =~= seq!['t', 'r', 'u', 'e']);
    assert(f@ =~= seq!['f', 'a', 'l', 's', 'e']);
    if chars_eq(s, &t) {
        Some(true)
    } else if chars_eq(s, &f) {
        Some(false)
    } else {
        None
    }
}

/// Appends `{}` of a `bool` to `out`.
pub fn push_bool(out: &mut Vec<char>, b: bool)
    ensures
        final(out)@ == old(out)@ + bool_text(b),
{
    if b {
        let t = ['t', 'r', 'u', 'e'];
        assert(t@ =~= seq!['t', 'r', 'u', 'e']);
        extend_chars(out, &t);
    } else {
        let f = ['f', 'a', 'l', 's', 'e'];
        assert(f@ =~= seq!['f', 'a', 'l', 's', 'e']);
        extend_chars(out, &f);
    }
}

fn digit_to_char(d: u64) -> (c: char)
    requires
        d < 10,
    ensures
        c == digit_char(d as int),
        is_digit(c),
        digit_val(c) == d,
{
    ((d as u8) + 48) as char
}

/// Appends the decimal digits of `n` to `out`.
pub fn push_nat(out: &mut Vec<char>, n: u64)
    ensures
        final(out)@ == old(out)@ + dec_nat(n as nat),
    decreases n,
{
    if n >= 10 {
        push_nat(out, n / 10);
    }
    out.push(digit_to_char(n % 10));
}

/// Appends `{}` of an `i32` to `out`.
pub fn push_i32(out: &mut Vec<char>, n: i32)
    ensures
        final(out)@ == old(out)@ + dec_int(n as int),
{
    if n < 0 {
        out.push('-');
        push_nat(out, (0 - (n as i64)) as u64);
        assert(out@ =~= old(out)@ + dec_int(n as int));
    } else {
        push_nat(out, n as u64);
    }
}

/// Appends `{}` of an unsigned number to `out`.
pub fn push_u64(out: &mut Vec<char>, n: u64)
    ensures
        final(out)@ == old(out)@ + dec_int(n as int),
{
    push_nat(out, n);
}

proof fn lemma_digit_char(d: int)
    requires
        0 <= d < 10,
    ensures
        is_digit(digit_char(d)),
        digit_val(digit_char(d)) == d,
{
}

/// The digits that `{}` writes for a natural number read back as that number.
pub proof fn lemma_dec_nat_digits(n: nat)
    ensures
        dec_nat(n).len() > 0,
        all_digits(dec_nat(n)),
        digits_value(dec_nat(n)) == n,
    decreases n,
{
    lemma_digit_char((n % 10) as int);
    if n >= 10 {
        lemma_dec_nat_digits(n / 10);
        let s = dec_nat(n);
        assert(s.drop_last() =~= dec_nat(n / 10));
        assert((n / 10) * 10 + n % 10 == n) by (nonlinear_arith);
        assert(s.last() == digit_char((n % 10) as int));
        assert(digits_value(s) == digits_value(s.drop_last()) * 10 + digit_val(s.last()));
        assert(digits_value(s) == (n / 10) * 10 + n % 10);
        assert forall|i: int| 0 <= i < s.len() implies is_digit(#[trigger] s[i]) by {
            if i < s.len() - 1 {
                assert(s[i] == dec_nat(n / 10)[i]);
            }
        }
    } else {
        assert(dec_nat(n).drop_last() =~= Seq::<char>::empty());
        assert(digits_value(dec_nat(n)) == digits_value(Seq::<char>::empty()) * 10 + digit_val(dec_nat(n).last()));
    }
}

/// `str::parse::<i32>` reads back what `{}` writes for an `i32`.
pub proof fn lemma_parse_dec_i32(n: i32)
    ensures
        parse_i32_spec(dec_int(n as int)) == Some(n),
{
    let s = dec_int(n as int);
    if n < 0 {
        let m = (-n) as nat;
        lemma_dec_nat_digits(m);
        assert(s.drop_first() =~= dec_nat(m));
    } else {
        lemma_dec_nat_digits(n as nat);
        assert(s[0] != '-' && s[0] != '+');
    }
}

/// `str::parse` for an unsigned type reads back what `{}` writes.
pub proof fn lemma_parse_dec_unsigned(n: nat)
    ensures
        unsigned_decimal(dec_int(n as int)) == Some(n as int),
{
    lemma_dec_nat_digits(n);
    assert(dec_nat(n)[0] != '+');
}

/// `str::parse::<bool>` reads back what `{}` writes for a `bool`.
pub proof fn lemma_parse_bool_text(b: bool)
    ensures
        parse_bool_spec(bool_text(b)) == Some(b),
{
    if !b {
        assert(seq!['f', 'a', 'l', 's', 'e'] != seq!['t', 'r', 'u', 'e']);
    }
}

// ---------------------------------------------------------------------
// UTF-8 lengths
// ---------------------------------------------------------------------

/// The number of bytes of `c` in UTF-8.
pub open spec fn utf8_width(c: char) -> int {
    if (c as u32) < 0x80 {
        1
    } else if (c as u32) < 0x800 {
        2
    } else if (c as u32) < 0x10000 {
        3
    } else {
        4
    }
}

/// The number of bytes of `s` in UTF-8 (what `str::len` gives).
pub open spec fn utf8_len(s: Seq<char>) -> int
    decreases s.len(),
{
    if s.len() == 0 {
        0
    } else {
        utf8_len(s.drop_last()) + utf8_width(s.last())
    }
}

pub proof fn lemma_utf8_len_prefix(s: Seq<char>, i: int)
    requires
        0 <= i <= s.len(),
    ensures
        utf8_len(s.take(i)) <= utf8_len(s),
        utf8_len(s.take(i)) >= 0,
    decreases s.len() - i,
{
    if i < s.len() {
        lemma_utf8_len_prefix(s, i + 1);
        assert(s.take(i + 1).drop_last() =~= s.take(i));
    } else {
        assert(s.take(i) =~= s);
    }
    lemma_utf8_len_nonneg(s.take(i));
}

pub proof fn lemma_utf8_len_nonneg(s: Seq<char>)
    ensures
        utf8_len(s) >= 0,
    decreases s.len(),
{
    if s.len() > 0 {
        lemma_utf8_len_nonneg(s.drop_last());
    }
}

pub fn utf8_width_of(c: char) -> (w: u64)
    ensures
        w as int == utf8_width(c),
{
    let u = c as u32;
    if u < 0x80 {
        1
    } else if u < 0x800 {
        2
    } else if u < 0x10000 {
        3
    } else {
        4
    }
}

/// Text of one-byte characters is as long in UTF-8 as in characters.
pub proof fn lemma_utf8_len_ascii(s: Seq<char>)
    requires
        forall|i: int| 0 <= i < s.len() ==> (#[trigger] s[i] as u32) < 0x80,
    ensures
        utf8_len(s) == s.len(),
    decreases s.len(),
{
    if s.len() > 0 {
        lemma_utf8_len_ascii(s.drop_last());
    }
}

/// The number of bytes of `s` in UTF-8.
pub fn utf8_byte_len(s: &[char]) -> (n: u128)
    ensures
        n as int == utf8_len(s@),
{
    let mut n: u128 = 0;
    let mut i: usize = 0;
    assert(s@.take(0) =~= Seq::<char>::empty());
    while i < s.len()
        invariant
            i <= s@.len(),
            n as int == utf8_len(s@.take(i as int)),
            n <= 4 * i,
        decreases s@.len() - i,
    {
        assert(s@.take(i + 1).drop_last() =~= s@.take(i as int));
        n = n + utf8_width_of(s[i]) as u128;
        i = i + 1;
    }
    assert(s@.take(s@.len() as int) =~= s@);
    n
}

/// `{}` of an `i32`.
pub fn i32_text(n: i32) -> (s: String)
    ensures
        s@ == dec_int(n as int),
{
    let mut v: Vec<char> = Vec::new();
    push_i32(&mut v, n);
    assert(v@ =~= dec_int(n as int));
    string_of(v.as_slice())
}

/// The UTF-16 code units of a character.
pub open spec fn utf16_units(c: char) -> Seq<u16> {
    let u = c as u32;
    if u < 0x10000 {
        seq![u as u16]
    } else {
        seq![
            (0xD800 + (u - 0x10000) / 1024) as u16,
            (0xDC00 + (u - 0x10000) % 1024) as u16,
        ]
    }
}

/// The UTF-16 code units of a text.
pub open spec fn utf16_of(s: Seq<char>) -> Seq<u16>
    decreases s.len(),
{
    if s.len() == 0 {
        Seq::empty()
    } else {
        utf16_of(s.drop_last()) + utf16_units(s.last())
    }
}

/// A text as the NUL-terminated UTF-16 string that the Windows API reads.
pub fn to_wide(s: &str) -> (w: Vec<u16>)
    ensures
        w@ == utf16_of(s@).push(0u16),
{
    let v = chars_of(s);
    let mut w: Vec<u16> = Vec::new();
    let mut i: usize = 0;
    assert(v@.take(0) =~= Seq::<char>::empty());
    while i < v.len()
        invariant
            i <= v@.len(),
            w@ == utf16_of(v@.take(i as int)),
        decreases v@.len() - i,
    {
        assert(v@.take(i + 1).drop_last() =~= v@.take(i as int));
        let u = v[i] as u32;
        if u < 0x10000 {
            w.push(u as u16);
        } else {
            let rest = u - 0x10000;
            w.push((0xD800 + rest / 1024) as u16);
            w.push((0xDC00 + rest % 1024) as u16);
        }
        assert(w@ =~= utf16_of(v@.take(i + 1)));
        i = i + 1;
    }
    assert(v@.take(v@.len() as int) =~= v@);
    w.push(0);
    w
}

} // verus!
