//! Global hotkeys: the text form `Ctrl+Shift+M` that the settings keep, the
//! modifier mask and virtual-key code it stands for, and the text built
//! while a new hotkey is recorded.
//!
//! The virtual-key code of a single-character key depends on the keyboard
//! layout; the caller looks it up (`VkKeyScanW`) for the character that
//! [`hotkey_scan_char`] names and hands the result in.
use vstd::prelude::*;
use crate::text;
use crate::text::CharClass;

verus! {

/// `MOD_ALT`.
pub const MOD_ALT: u32 = 0x0001;

/// `MOD_CONTROL`.
pub const MOD_CONTROL: u32 = 0x0002;

/// `MOD_SHIFT`.
pub const MOD_SHIFT: u32 = 0x0004;

/// `MOD_WIN`.
pub const MOD_WIN: u32 = 0x0008;

/// `MOD_NOREPEAT`: a held key does not repeat the hotkey.
pub const MOD_NOREPEAT: u32 = 0x4000;

/// The parts of `s` between `+` signs, as `str::split('+')` gives them.
pub open spec fn split_plus(s: Seq<char>) -> Seq<Seq<char>>
    decreases s.len(),
{
    if s.len() == 0 {
        seq![Seq::empty()]
    } else {
        let p = split_plus(s.drop_last());
        if s.last() == '+' {
            p.push(Seq::empty())
        } else {
            p.update(p.len() - 1, p.last().push(s.last()))
        }
    }
}

/// The modifier that a part names; unknown parts name none.
pub open spec fn modifier_bit(part: Seq<char>) -> u32 {
    if part == "Ctrl"@ {
        MOD_CONTROL
    } else if part == "Shift"@ {
        MOD_SHIFT
    } else if part == "Alt"@ {
        MOD_ALT
    } else if part == "Win"@ {
        MOD_WIN
    } else {
        0
    }
}

/// The modifiers that the parts name, together.
pub open spec fn modifiers_of(parts: Seq<Seq<char>>) -> u32
    decreases parts.len(),
{
    if parts.len() == 0 {
        0
    } else {
        modifiers_of(parts.drop_last()) | modifier_bit(parts.last())
    }
}

/// The virtual-key code of a named key.
pub open spec fn named_key_vk(k: Seq<char>) -> Option<u32> {
    if k == "F1"@ {
        Some(0x70)
    } else if k == "F2"@ {
        Some(0x71)
    } else if k == "F3"@ {
        Some(0x72)
    } else if k == "F4"@ {
        Some(0x73)
    } else if k == "F5"@ {
        Some(0x74)
    } else if k == "F6"@ {
        Some(0x75)
    } else if k == "F7"@ {
        Some(0x76)
    } else if k == "F8"@ {
        Some(0x77)
    } else if k == "F9"@ {
        Some(0x78)
    } else if k == "F10"@ {
        Some(0x79)
    } else if k == "F11"@ {
        Some(0x7A)
    } else if k == "F12"@ {
        Some(0x7B)
    } else if k == "Insert"@ {
        Some(0x2D)
    } else if k == "Delete"@ {
        Some(0x2E)
    } else if k == "Home"@ {
        Some(0x24)
    } else if k == "End"@ {
        Some(0x23)
    } else if k == "Page Up"@ {
        Some(0x21)
    } else if k == "Page Down"@ {
        Some(0x22)
    } else if k == "Left"@ {
        Some(0x25)
    } else if k == "Up"@ {
        Some(0x26)
    } else if k == "Right"@ {
        Some(0x27)
    } else if k == "Down"@ {
        Some(0x28)
    } else if k == "Space"@ {
        Some(0x20)
    } else if k == "Tab"@ {
        Some(0x09)
    } else if k == "Enter"@ {
        Some(0x0D)
    } else if k == "Backspace"@ {
        Some(0x08)
    } else if k == "Escape"@ {
        Some(0x1B)
    } else if k == "Num Lock"@ {
        Some(0x90)
    } else if k == "Scroll Lock"@ {
        Some(0x91)
    } else if k == "Pause"@ {
        Some(0x13)
    } else {
        None
    }
}

/// The upper case of an ASCII character.
pub open spec fn ascii_upper(c: char) -> char {
    if 'a' <= c && c <= 'z' {
        ((c as u32) - 32) as char
    } else {
        c
    }
}

/// For a key written as one single-byte character, that character in upper
/// case: the character whose key the layout is asked for.
pub open spec fn key_char(k: Seq<char>) -> Option<char> {
    if k.len() == 1 && (k[0] as u32) < 0x80 {
        Some(ascii_upper(k[0]))
    } else {
        None
    }
}

/// The key of a hotkey text: what follows its last `+`.
pub open spec fn hotkey_key(s: Seq<char>) -> Seq<char> {
    split_plus(s).last()
}

/// The modifier mask of a hotkey text: the modifiers named before its last
/// `+`.
pub open spec fn hotkey_modifiers(s: Seq<char>) -> u32 {
    modifiers_of(split_plus(s).drop_last())
}

/// The virtual-key code of a key, given what the layout says (`scan`) for
/// the character of a one-character key.
pub open spec fn resolve_key(k: Seq<char>, scan: i16) -> Option<u32> {
    match named_key_vk(k) {
        Some(vk) => Some(vk),
        None => match key_char(k) {
            Some(_) => Some((scan & 0xFFi16) as u32),
            None => None,
        },
    }
}

/// The modifier mask and the virtual-key code of a hotkey text; none for the
/// empty text and for texts whose key has no name and is not one
/// single-byte character.
pub open spec fn hotkey_spec(s: Seq<char>, scan: i16) -> Option<(u32, u32)> {
    if s.len() == 0 {
        None
    } else {
        match resolve_key(hotkey_key(s), scan) {
            Some(vk) => Some((hotkey_modifiers(s), vk)),
            None => None,
        }
    }
}

/// The character whose key the layout must be asked for, if any.
pub open spec fn scan_char_spec(s: Seq<char>) -> Option<char> {
    if s.len() == 0 {
        None
    } else if named_key_vk(hotkey_key(s)) is Some {
        None
    } else {
        key_char(hotkey_key(s))
    }
}

proof fn lemma_split_plus_len(s: Seq<char>)
    ensures
        split_plus(s).len() >= 1,
    decreases s.len(),
{
    if s.len() > 0 {
        lemma_split_plus_len(s.drop_last());
    }
}

fn modifier_bit_of(part: &[char]) -> (r: u32)
    ensures
        r == modifier_bit(part@),
{
    if text::chars_eq_str(part, "Ctrl") {
        MOD_CONTROL
    } else if text::chars_eq_str(part, "Shift") {
        MOD_SHIFT
    } else if text::chars_eq_str(part, "Alt") {
        MOD_ALT
    } else if text::chars_eq_str(part, "Win") {
        MOD_WIN
    } else {
        0
    }
}

fn named_key_of(k: &[char]) -> (r: Option<u32>)
    ensures
        r == named_key_vk(k@),
{
    if text::chars_eq_str(k, "F1") {
        Some(0x70)
    } else if text::chars_eq_str(k, "F2") {
        Some(0x71)
    } else if text::chars_eq_str(k, "F3") {
        Some(0x72)
    } else if text::chars_eq_str(k, "F4") {
        Some(0x73)
    } else if text::chars_eq_str(k, "F5") {
        Some(0x74)
    } else if text::chars_eq_str(k, "F6") {
        Some(0x75)
    } else if text::chars_eq_str(k, "F7") {
        Some(0x76)
    } else if text::chars_eq_str(k, "F8") {
        Some(0x77)
    } else if text::chars_eq_str(k, "F9") {
        Some(0x78)
    } else if text::chars_eq_str(k, "F10") {
        Some(0x79)
    } else if text::chars_eq_str(k, "F11") {
        Some(0x7A)
    } else if text::chars_eq_str(k, "F12") {
        Some(0x7B)
    } else if text::chars_eq_str(k, "Insert") {
        Some(0x2D)
    } else if text::chars_eq_str(k, "Delete") {
        Some(0x2E)
    } else if text::chars_eq_str(k, "Home") {
        Some(0x24)
    } else if text::chars_eq_str(k, "End") {
        Some(0x23)
    } else if text::chars_eq_str(k, "Page Up") {
        Some(0x21)
    } else if text::chars_eq_str(k, "Page Down") {
        Some(0x22)
    } else if text::chars_eq_str(k, "Left") {
        Some(0x25)
    } else if text::chars_eq_str(k, "Up") {
        Some(0x26)
    } else if text::chars_eq_str(k, "Right") {
        Some(0x27)
    } else if text::chars_eq_str(k, "Down") {
        Some(0x28)
    } else if text::chars_eq_str(k, "Space") {
        Some(0x20)
    } else if text::chars_eq_str(k, "Tab") {
        Some(0x09)
    } else if text::chars_eq_str(k, "Enter") {
        Some(0x0D)
    } else if text::chars_eq_str(k, "Backspace") {
        Some(0x08)
    } else if text::chars_eq_str(k, "Escape") {
        Some(0x1B)
    } else if text::chars_eq_str(k, "Num Lock") {
        Some(0x90)
    } else if text::chars_eq_str(k, "Scroll Lock") {
        Some(0x91)
    } else if text::chars_eq_str(k, "Pause") {
        Some(0x13)
    } else {
        None
    }
}

fn key_char_of(k: &[char]) -> (r: Option<char>)
    ensures
        r == key_char(k@),
{
    if k.len() == 1 && (k[0] as u32) < 0x80 {
        let c = k[0];
        if 'a' <= c && c <= 'z' {
            Some(((c as u32 - 32) as u8) as char)
        } else {
            Some(c)
        }
    } else {
        None
    }
}

/// The modifier mask and the key part of a hotkey text.
fn split_hotkey(s: &str) -> (r: (u32, Vec<char>))
    ensures
        r.0 == hotkey_modifiers(s@),
        r.1@ == hotkey_key(s@),
{
    let chars = text::chars_of(s);
    let mut mods: u32 = 0;
    let mut cur: Vec<char> = Vec::new();
    let mut i: usize = 0;
    assert(chars@.take(0) =~= Seq::<char>::empty());
    while i < chars.len()
        invariant
            i <= chars@.len(),
            chars@ == s@,
            mods == modifiers_of(split_plus(chars@.take(i as int)).drop_last()),
            cur@ == split_plus(chars@.take(i as int)).last(),
        decreases chars@.len() - i,
    {
        let ghost pre = chars@.take(i as int);
        let ghost p = split_plus(pre);
        proof {
            lemma_split_plus_len(pre);
            assert(chars@.take(i + 1).drop_last() =~= pre);
        }
        let c = chars[i];
        if c == '+' {
            mods = mods | modifier_bit_of(cur.as_slice());
            cur = Vec::new();
            proof {
                assert(p.push(Seq::empty()).drop_last() =~= p);
                assert(p == p.drop_last().push(p.last()));
                assert(modifiers_of(p) == modifiers_of(p.drop_last()) | modifier_bit(p.last()));
            }
        } else {
            cur.push(c);
            proof {
                assert(p.update(p.len() - 1, p.last().push(c)).drop_last() =~= p.drop_last());
            }
        }
        i = i + 1;
    }
    assert(chars@.take(chars@.len() as int) =~= chars@);
    (mods, cur)
}

/// The character whose key the layout must be asked for (with
/// `VkKeyScanW`) before `parse_hotkey` can resolve `s`: the upper case of a
/// one-character key.
pub fn hotkey_scan_char(s: &str) -> (r: Option<u16>)
    ensures
        r == (match scan_char_spec(s@) {
            Some(c) => Some(c as u16),
            None => None,
        }),
{
    if s.is_empty() {
        return None;
    }
    let (_mods, key) = split_hotkey(s);
    if named_key_of(key.as_slice()).is_some() {
        return None;
    }
    match key_char_of(key.as_slice()) {
        Some(c) => Some(c as u32 as u16),
        None => None,
    }
}

/// Reads a hotkey text such as `Ctrl+Alt+M` as its modifier mask and
/// virtual-key code; `scan` is what `VkKeyScanW` gave for the character that
/// `hotkey_scan_char` named (it is not read otherwise).
pub fn parse_hotkey(s: &str, scan: i16) -> (r: Option<(u32, u32)>)
    ensures
        r == hotkey_spec(s@, scan),
{
    if s.is_empty() {
        return None;
    }
    let (mods, key) = split_hotkey(s);
    match named_key_of(key.as_slice()) {
        Some(vk) => Some((mods, vk)),
        None => match key_char_of(key.as_slice()) {
            Some(_) => Some((mods, (scan & 0xFFi16) as u32)),
            None => None,
        },
    }
}

/// The modifiers and key with which a hotkey text is registered: as parsed,
/// with key repeat switched off.
pub fn hotkey_registration(s: &str, scan: i16) -> (r: Option<(u32, u32)>)
    ensures
        r == (match hotkey_spec(s@, scan) {
            Some((m, vk)) => Some((m | MOD_NOREPEAT, vk)),
            None => None,
        }),
{
    match parse_hotkey(s, scan) {
        Some((m, vk)) => Some((m | MOD_NOREPEAT, vk)),
        None => None,
    }
}

// ---------------------------------------------------------------------
// Recording a hotkey
// ---------------------------------------------------------------------

/// Whether `vk` is a bare modifier key (Shift, Ctrl, Alt, either Windows
/// key): recording keeps waiting for another key.
pub open spec fn is_modifier_vk_spec(vk: u32) -> bool {
    (0x10 <= vk <= 0x12) || (0xA0 <= vk <= 0xA5) || vk == 0x5B || vk == 0x5C
}

pub fn is_modifier_vk(vk: u32) -> (r: bool)
    ensures
        r == is_modifier_vk_spec(vk),
{
    (0x10 <= vk && vk <= 0x12) || (0xA0 <= vk && vk <= 0xA5) || vk == 0x5B || vk == 0x5C
}

/// Keys whose name needs the extended-key flag: the navigation cluster, the
/// arrows, Insert, Delete, Help and the keypad's divide.
pub open spec fn is_extended_vk(vk: u32) -> bool {
    (0x21 <= vk <= 0x28) || vk == 0x2D || vk == 0x2E || vk == 0x2F || vk == 0x6F
}

/// The `lParam` that `GetKeyNameTextW` is given for a key: its scan code in
/// bits 16 and up, and bit 24 for an extended key.
pub open spec fn key_name_lparam_spec(vk: u32, scan_code: u32) -> i32 {
    if is_extended_vk(vk) {
        ((scan_code << 16u32) | (1u32 << 24u32)) as i32
    } else {
        (scan_code << 16u32) as i32
    }
}

pub fn key_name_lparam(vk: u32, scan_code: u32) -> (r: i32)
    ensures
        r == key_name_lparam_spec(vk, scan_code),
{
    if (0x21 <= vk && vk <= 0x28) || vk == 0x2D || vk == 0x2E || vk == 0x2F || vk == 0x6F {
        ((scan_code << 16u32) | (1u32 << 24u32)) as i32
    } else {
        (scan_code << 16u32) as i32
    }
}

/// The names of the held modifiers, in the order Ctrl, Shift, Alt, Win.
pub open spec fn modifier_names(ctrl: bool, shift: bool, alt: bool, win: bool) -> Seq<Seq<char>> {
    let a: Seq<Seq<char>> = if ctrl {
        seq!["Ctrl"@]
    } else {
        seq![]
    };
    let b = if shift {
        a.push("Shift"@)
    } else {
        a
    };
    let c = if alt {
        b.push("Alt"@)
    } else {
        b
    };
    if win {
        c.push("Win"@)
    } else {
        c
    }
}

/// The parts joined with `+` between them.
pub open spec fn join_plus(parts: Seq<Seq<char>>) -> Seq<char>
    decreases parts.len(),
{
    if parts.len() == 0 {
        Seq::empty()
    } else if parts.len() == 1 {
        parts[0]
    } else {
        join_plus(parts.drop_last()) + seq!['+'] + parts.last()
    }
}

/// The text shown for a recorded hotkey: the held modifiers joined with `+`,
/// then `+` and the key's name; the key's name alone when no modifier is
/// held. The name loses the NUL characters at either end.
pub open spec fn hotkey_display_spec(
    ctrl: bool,
    shift: bool,
    alt: bool,
    win: bool,
    key_name: Seq<char>,
) -> Seq<char> {
    let mods = join_plus(modifier_names(ctrl, shift, alt, win));
    let key = text::trim_by(key_name, CharClass::Nul);
    if mods.len() == 0 {
        key
    } else {
        mods + seq!['+'] + key
    }
}

fn push_modifier(out: &mut Vec<char>, name: &str)
    ensures
        final(out)@ == (if old(out)@.len() == 0 {
            name@
        } else {
            old(out)@ + seq!['+'] + name@
        }),
{
    if out.len() > 0 {
        out.push('+');
    }
    let v = text::chars_of(name);
    text::extend_chars(out, v.as_slice());
    assert(old(out)@.len() == 0 ==> final(out)@ =~= name@);
}

proof fn lemma_join_plus_push(parts: Seq<Seq<char>>, p: Seq<char>)
    requires
        forall|i: int| 0 <= i < parts.len() ==> (#[trigger] parts[i]).len() > 0,
    ensures
        join_plus(parts.push(p)) == (if join_plus(parts).len() == 0 {
            p
        } else {
            join_plus(parts) + seq!['+'] + p
        }),
        parts.len() > 0 ==> join_plus(parts).len() > 0,
    decreases parts.len(),
{
    assert(parts.push(p).drop_last() =~= parts);
    if parts.len() > 1 {
        lemma_join_plus_push(parts.drop_last(), parts.last());
    }
}

/// The text shown for a recorded hotkey, from the modifiers held and the
/// key's name as `GetKeyNameTextW` wrote it.
pub fn hotkey_display(ctrl: bool, shift: bool, alt: bool, win: bool, key_name: &str) -> (r: String)
    ensures
        r@ == hotkey_display_spec(ctrl, shift, alt, win, key_name@),
{
    proof {
        reveal_strlit("Ctrl");
        reveal_strlit("Shift");
        reveal_strlit("Alt");
        reveal_strlit("Win");
    }
    let ghost names0: Seq<Seq<char>> = seq![];
    let ghost names1 = if ctrl {
        names0.push("Ctrl"@)
    } else {
        names0
    };
    let ghost names2 = if shift {
        names1.push("Shift"@)
    } else {
        names1
    };
    let ghost names3 = if alt {
        names2.push("Alt"@)
    } else {
        names2
    };
    let ghost names4 = if win {
        names3.push("Win"@)
    } else {
        names3
    };
    let mut mods: Vec<char> = Vec::new();
    if ctrl {
        push_modifier(&mut mods, "Ctrl");
        proof {
            lemma_join_plus_push(names0, "Ctrl"@);
        }
    }
    assert(mods@ == join_plus(names1));
    if shift {
        push_modifier(&mut mods, "Shift");
        proof {
            lemma_join_plus_push(names1, "Shift"@);
        }
    }
    assert(mods@ == join_plus(names2));
    if alt {
        push_modifier(&mut mods, "Alt");
        proof {
            lemma_join_plus_push(names2, "Alt"@);
        }
    }
    assert(mods@ == join_plus(names3));
    if win {
        push_modifier(&mut mods, "Win");
        proof {
            lemma_join_plus_push(names3, "Win"@);
        }
    }
    assert(mods@ == join_plus(names4));
    assert(names4 =~= modifier_names(ctrl, shift, alt, win));
    let kv = text::chars_of(key_name);
    let key = text::trim_chars(kv.as_slice(), CharClass::Nul);
    if mods.len() == 0 {
        text::string_of(key.as_slice())
    } else {
        mods.push('+');
        text::extend_chars(&mut mods, key.as_slice());
        text::string_of(mods.as_slice())
    }
}

/// What the keyboard hook decides: a key-up message (`WM_KEYUP` or
/// `WM_SYSKEYUP`) of the hotkey's key while a push press is held is the
/// hotkey's release.
pub fn is_hotkey_release(msg: u32, held: bool, hotkey_vk: Option<u32>, vk_code: u32) -> (r: bool)
    ensures
        r == ((msg == 0x0101 || msg == 0x0105) && held && hotkey_vk == Some(vk_code)),
{
    let is_keyup = msg == 0x0101 || msg == 0x0105;
    if is_keyup && held {
        match hotkey_vk {
            Some(vk) => vk == vk_code,
            None => false,
        }
    } else {
        false
    }
}

// ---------------------------------------------------------------------
// Recording then reading
// ---------------------------------------------------------------------

/// The modifier mask of the held modifiers.
pub open spec fn modifier_mask(ctrl: bool, shift: bool, alt: bool, win: bool) -> u32 {
    (if ctrl {
        MOD_CONTROL
    } else {
        0u32
    }) | (if shift {
        MOD_SHIFT
    } else {
        0u32
    }) | (if alt {
        MOD_ALT
    } else {
        0u32
    }) | (if win {
        MOD_WIN
    } else {
        0u32
    })
}

pub open spec fn no_plus(s: Seq<char>) -> bool {
    forall|i: int| 0 <= i < s.len() ==> s[i] != '+'
}

proof fn lemma_split_plus_single(b: Seq<char>)
    requires
        no_plus(b),
    ensures
        split_plus(b) == seq![b],
    decreases b.len(),
{
    if b.len() > 0 {
        lemma_split_plus_single(b.drop_last());
        assert(b.drop_last().push(b.last()) =~= b);
        assert(seq![b.drop_last()].update(0, b.drop_last().push(b.last())) =~= seq![b]);
    } else {
        assert(b =~= Seq::<char>::empty());
    }
}

proof fn lemma_split_plus_append(a: Seq<char>, b: Seq<char>)
    requires
        no_plus(b),
    ensures
        split_plus(a + seq!['+'] + b) == split_plus(a).push(b),
    decreases b.len(),
{
    let x = a + seq!['+'] + b;
    if b.len() == 0 {
        assert(x.drop_last() =~= a);
        assert(b =~= Seq::<char>::empty());
    } else {
        let b1 = b.drop_last();
        lemma_split_plus_append(a, b1);
        assert(x.drop_last() =~= a + seq!['+'] + b1);
        assert(x.last() == b.last());
        lemma_split_plus_len(a);
        assert(b1.push(b.last()) =~= b);
        assert(split_plus(a).push(b1).update(split_plus(a).len() as int, b1.push(b.last()))
            =~= split_plus(a).push(b));
    }
}

proof fn lemma_split_join(parts: Seq<Seq<char>>)
    requires
        parts.len() > 0,
        forall|i: int| 0 <= i < parts.len() ==> no_plus(#[trigger] parts[i]),
    ensures
        split_plus(join_plus(parts)) == parts,
    decreases parts.len(),
{
    if parts.len() == 1 {
        lemma_split_plus_single(parts[0]);
        assert(seq![parts[0]] =~= parts);
    } else {
        lemma_split_join(parts.drop_last());
        lemma_split_plus_append(join_plus(parts.drop_last()), parts.last());
        assert(parts.drop_last().push(parts.last()) =~= parts);
    }
}

proof fn lemma_or_zero()
    by (bit_vector)
    ensures
        forall|x: u32| #[trigger] (x | 0u32) == x,
        forall|x: u32| #[trigger] (0u32 | x) == x,
{
}

proof fn lemma_modifiers_of_names(ctrl: bool, shift: bool, alt: bool, win: bool)
    ensures
        modifiers_of(modifier_names(ctrl, shift, alt, win)) == modifier_mask(ctrl, shift, alt, win),
        forall|i: int|
            0 <= i < modifier_names(ctrl, shift, alt, win).len() ==> no_plus(
                #[trigger] modifier_names(ctrl, shift, alt, win)[i],
            ) && modifier_names(ctrl, shift, alt, win)[i].len() > 0,
{
    reveal_strlit("Ctrl");
    reveal_strlit("Shift");
    reveal_strlit("Alt");
    reveal_strlit("Win");
    lemma_or_zero();
    assert("Ctrl"@ =~= seq!['C', 't', 'r', 'l']);
    assert("Shift"@ =~= seq!['S', 'h', 'i', 'f', 't']);
    assert("Alt"@ =~= seq!['A', 'l', 't']);
    assert("Win"@ =~= seq!['W', 'i', 'n']);
    let e: Seq<Seq<char>> = seq![];
    let n1 = if ctrl {
        e.push("Ctrl"@)
    } else {
        e
    };
    let n2 = if shift {
        n1.push("Shift"@)
    } else {
        n1
    };
    let n3 = if alt {
        n2.push("Alt"@)
    } else {
        n2
    };
    let n4 = if win {
        n3.push("Win"@)
    } else {
        n3
    };
    assert(n4 =~= modifier_names(ctrl, shift, alt, win));
    assert(modifier_bit("Ctrl"@) == MOD_CONTROL);
    assert(modifier_bit("Shift"@) == MOD_SHIFT);
    assert(modifier_bit("Alt"@) == MOD_ALT);
    assert(modifier_bit("Win"@) == MOD_WIN);
    assert(e.push("Ctrl"@).drop_last() =~= e);
    assert(n1.push("Shift"@).drop_last() =~= n1);
    assert(n2.push("Alt"@).drop_last() =~= n2);
    assert(n3.push("Win"@).drop_last() =~= n3);
    assert(modifiers_of(e) == 0u32);
    let m1 = modifiers_of(n1);
    if ctrl {
        assert(m1 == (0u32 | MOD_CONTROL));
        assert((0u32 | MOD_CONTROL) == MOD_CONTROL);
    }
    let m2 = modifiers_of(n2);
    let m3 = modifiers_of(n3);
    assert(m1 == (if ctrl {
        MOD_CONTROL
    } else {
        0u32
    }));
    assert(m2 == m1 | (if shift {
        MOD_SHIFT
    } else {
        0u32
    }));
    assert(m3 == m2 | (if alt {
        MOD_ALT
    } else {
        0u32
    }));
    assert(modifiers_of(n4) == m3 | (if win {
        MOD_WIN
    } else {
        0u32
    }));
}

/// A recorded hotkey reads back as the modifiers that were held and the key
/// that was named, for a key name without `+`.
pub proof fn lemma_recorded_hotkey_parses(
    ctrl: bool,
    shift: bool,
    alt: bool,
    win: bool,
    key_name: Seq<char>,
    scan: i16,
)
    requires
        no_plus(text::trim_by(key_name, CharClass::Nul)),
    ensures
        hotkey_spec(hotkey_display_spec(ctrl, shift, alt, win, key_name), scan) == (match resolve_key(
            text::trim_by(key_name, CharClass::Nul),
            scan,
        ) {
            Some(vk) => Some((modifier_mask(ctrl, shift, alt, win), vk)),
            None => None,
        }),
{
    let k = text::trim_by(key_name, CharClass::Nul);
    let names = modifier_names(ctrl, shift, alt, win);
    let mods = join_plus(names);
    let d = hotkey_display_spec(ctrl, shift, alt, win, key_name);
    lemma_modifiers_of_names(ctrl, shift, alt, win);
    if names.len() == 0 {
        assert(mods.len() == 0);
        lemma_split_plus_single(k);
        assert(seq![k].drop_last() =~= Seq::<Seq<char>>::empty());
        assert(modifier_mask(ctrl, shift, alt, win) == 0u32);
        if k.len() == 0 {
            assert(named_key_vk(k) is None) by {
                reveal_named_keys();
            }
        }
    } else {
        lemma_join_plus_nonempty(names);
        lemma_split_join(names);
        lemma_split_plus_append(mods, k);
        assert(split_plus(d) == names.push(k));
        assert(names.push(k).drop_last() =~= names);
    }
}

proof fn lemma_join_plus_nonempty(parts: Seq<Seq<char>>)
    requires
        parts.len() > 0,
        forall|i: int| 0 <= i < parts.len() ==> (#[trigger] parts[i]).len() > 0,
    ensures
        join_plus(parts).len() > 0,
    decreases parts.len(),
{
    if parts.len() > 1 {
        lemma_join_plus_nonempty(parts.drop_last());
    }
}

proof fn reveal_named_keys()
    ensures
        named_key_vk(Seq::empty()) is None,
{
    reveal_strlit("F1");
    reveal_strlit("F2");
    reveal_strlit("F3");
    reveal_strlit("F4");
    reveal_strlit("F5");
    reveal_strlit("F6");
    reveal_strlit("F7");
    reveal_strlit("F8");
    reveal_strlit("F9");
    reveal_strlit("F10");
    reveal_strlit("F11");
    reveal_strlit("F12");
    reveal_strlit("Insert");
    reveal_strlit("Delete");
    reveal_strlit("Home");
    reveal_strlit("End");
    reveal_strlit("Page Up");
    reveal_strlit("Page Down");
    reveal_strlit("Left");
    reveal_strlit("Up");
    reveal_strlit("Right");
    reveal_strlit("Down");
    reveal_strlit("Space");
    reveal_strlit("Tab");
    reveal_strlit("Enter");
    reveal_strlit("Backspace");
    reveal_strlit("Escape");
    reveal_strlit("Num Lock");
    reveal_strlit("Scroll Lock");
    reveal_strlit("Pause");
    assert("F1"@.len() == 2);
    assert("F2"@.len() == 2);
    assert("F3"@.len() == 2);
    assert("F4"@.len() == 2);
    assert("F5"@.len() == 2);
    assert("F6"@.len() == 2);
    assert("F7"@.len() == 2);
    assert("F8"@.len() == 2);
    assert("F9"@.len() == 2);
    assert("F10"@.len() == 3);
    assert("F11"@.len() == 3);
    assert("F12"@.len() == 3);
    assert("Insert"@.len() == 6);
    assert("Delete"@.len() == 6);
    assert("Home"@.len() == 4);
    assert("End"@.len() == 3);
    assert("Page Up"@.len() == 7);
    assert("Page Down"@.len() == 9);
    assert("Left"@.len() == 4);
    assert("Up"@.len() == 2);
    assert("Right"@.len() == 5);
    assert("Down"@.len() == 4);
    assert("Space"@.len() == 5);
    assert("Tab"@.len() == 3);
    assert("Enter"@.len() == 5);
    assert("Backspace"@.len() == 9);
    assert("Escape"@.len() == 6);
    assert("Num Lock"@.len() == 8);
    assert("Scroll Lock"@.len() == 11);
    assert("Pause"@.len() == 5);
}


/// A key text without `+` names no modifier: it reads as its key alone.
proof fn lemma_bare_key(k: Seq<char>, scan: i16)
    requires
        k.len() > 0,
        no_plus(k),
    ensures
        hotkey_spec(k, scan) == (match resolve_key(k, scan) {
            Some(vk) => Some((0u32, vk)),
            None => None,
        }),
{
    lemma_split_plus_single(k);
    assert(seq![k].drop_last() =~= Seq::<Seq<char>>::empty());
}

/// The text of function key `n`: `F` and the number.
pub open spec fn function_key_name(n: nat) -> Seq<char> {
    seq!['F'] + text::dec_nat(n)
}

/// The characters of the key names.
proof fn reveal_key_names()
    ensures
        "F1"@ == seq!['F', '1'],
        "F2"@ == seq!['F', '2'],
        "F3"@ == seq!['F', '3'],
        "F4"@ == seq!['F', '4'],
        "F5"@ == seq!['F', '5'],
        "F6"@ == seq!['F', '6'],
        "F7"@ == seq!['F', '7'],
        "F8"@ == seq!['F', '8'],
        "F9"@ == seq!['F', '9'],
        "F10"@ == seq!['F', '1', '0'],
        "F11"@ == seq!['F', '1', '1'],
        "F12"@ == seq!['F', '1', '2'],
        "Insert"@ == seq!['I', 'n', 's', 'e', 'r', 't'],
        "Delete"@ == seq!['D', 'e', 'l', 'e', 't', 'e'],
        "Home"@ == seq!['H', 'o', 'm', 'e'],
        "End"@ == seq!['E', 'n', 'd'],
        "Page Up"@ == seq!['P', 'a', 'g', 'e', ' ', 'U', 'p'],
        "Page Down"@ == seq!['P', 'a', 'g', 'e', ' ', 'D', 'o', 'w', 'n'],
        "Left"@ == seq!['L', 'e', 'f', 't'],
        "Up"@ == seq!['U', 'p'],
        "Right"@ == seq!['R', 'i', 'g', 'h', 't'],
        "Down"@ == seq!['D', 'o', 'w', 'n'],
        "Space"@ == seq!['S', 'p', 'a', 'c', 'e'],
        "Tab"@ == seq!['T', 'a', 'b'],
        "Enter"@ == seq!['E', 'n', 't', 'e', 'r'],
        "Backspace"@ == seq!['B', 'a', 'c', 'k', 's', 'p', 'a', 'c', 'e'],
        "Escape"@ == seq!['E', 's', 'c', 'a', 'p', 'e'],
        "Num Lock"@ == seq!['N', 'u', 'm', ' ', 'L', 'o', 'c', 'k'],
        "Scroll Lock"@ == seq!['S', 'c', 'r', 'o', 'l', 'l', ' ', 'L', 'o', 'c', 'k'],
        "Pause"@ == seq!['P', 'a', 'u', 's', 'e'],
{
    reveal_strlit("F1");
    reveal_strlit("F2");
    reveal_strlit("F3");
    reveal_strlit("F4");
    reveal_strlit("F5");
    reveal_strlit("F6");
    reveal_strlit("F7");
    reveal_strlit("F8");
    reveal_strlit("F9");
    reveal_strlit("F10");
    reveal_strlit("F11");
    reveal_strlit("F12");
    reveal_strlit("Insert");
    reveal_strlit("Delete");
    reveal_strlit("Home");
    reveal_strlit("End");
    reveal_strlit("Page Up");
    reveal_strlit("Page Down");
    reveal_strlit("Left");
    reveal_strlit("Up");
    reveal_strlit("Right");
    reveal_strlit("Down");
    reveal_strlit("Space");
    reveal_strlit("Tab");
    reveal_strlit("Enter");
    reveal_strlit("Backspace");
    reveal_strlit("Escape");
    reveal_strlit("Num Lock");
    reveal_strlit("Scroll Lock");
    reveal_strlit("Pause");
    assert("F1"@ =~= seq!['F', '1']);
    assert("F2"@ =~= seq!['F', '2']);
    assert("F3"@ =~= seq!['F', '3']);
    assert("F4"@ =~= seq!['F', '4']);
    assert("F5"@ =~= seq!['F', '5']);
    assert("F6"@ =~= seq!['F', '6']);
    assert("F7"@ =~= seq!['F', '7']);
    assert("F8"@ =~= seq!['F', '8']);
    assert("F9"@ =~= seq!['F', '9']);
    assert("F10"@ =~= seq!['F', '1', '0']);
    assert("F11"@ =~= seq!['F', '1', '1']);
    assert("F12"@ =~= seq!['F', '1', '2']);
    assert("Insert"@ =~= seq!['I', 'n', 's', 'e', 'r', 't']);
    assert("Delete"@ =~= seq!['D', 'e', 'l', 'e', 't', 'e']);
    assert("Home"@ =~= seq!['H', 'o', 'm', 'e']);
    assert("End"@ =~= seq!['E', 'n', 'd']);
    assert("Page Up"@ =~= seq!['P', 'a', 'g', 'e', ' ', 'U', 'p']);
    assert("Page Down"@ =~= seq!['P', 'a', 'g', 'e', ' ', 'D', 'o', 'w', 'n']);
    assert("Left"@ =~= seq!['L', 'e', 'f', 't']);
    assert("Up"@ =~= seq!['U', 'p']);
    assert("Right"@ =~= seq!['R', 'i', 'g', 'h', 't']);
    assert("Down"@ =~= seq!['D', 'o', 'w', 'n']);
    assert("Space"@ =~= seq!['S', 'p', 'a', 'c', 'e']);
    assert("Tab"@ =~= seq!['T', 'a', 'b']);
    assert("Enter"@ =~= seq!['E', 'n', 't', 'e', 'r']);
    assert("Backspace"@ =~= seq!['B', 'a', 'c', 'k', 's', 'p', 'a', 'c', 'e']);
    assert("Escape"@ =~= seq!['E', 's', 'c', 'a', 'p', 'e']);
    assert("Num Lock"@ =~= seq!['N', 'u', 'm', ' ', 'L', 'o', 'c', 'k']);
    assert("Scroll Lock"@ =~= seq!['S', 'c', 'r', 'o', 'l', 'l', ' ', 'L', 'o', 'c', 'k']);
    assert("Pause"@ =~= seq!['P', 'a', 'u', 's', 'e']);
}

proof fn lemma_function_key_names()
    ensures
        function_key_name(1) == "F1"@,
        function_key_name(2) == "F2"@,
        function_key_name(3) == "F3"@,
        function_key_name(4) == "F4"@,
        function_key_name(5) == "F5"@,
        function_key_name(6) == "F6"@,
        function_key_name(7) == "F7"@,
        function_key_name(8) == "F8"@,
        function_key_name(9) == "F9"@,
        function_key_name(10) == "F10"@,
        function_key_name(11) == "F11"@,
        function_key_name(12) == "F12"@,
{
    reveal_with_fuel(text::dec_nat, 2);
    reveal_key_names();
    assert(function_key_name(1) =~= seq!['F', '1']);
    assert(function_key_name(2) =~= seq!['F', '2']);
    assert(function_key_name(3) =~= seq!['F', '3']);
    assert(function_key_name(4) =~= seq!['F', '4']);
    assert(function_key_name(5) =~= seq!['F', '5']);
    assert(function_key_name(6) =~= seq!['F', '6']);
    assert(function_key_name(7) =~= seq!['F', '7']);
    assert(function_key_name(8) =~= seq!['F', '8']);
    assert(function_key_name(9) =~= seq!['F', '9']);
    assert(text::dec_nat(10) == seq!['1'].push('0'));
    assert(function_key_name(10) =~= seq!['F', '1', '0']);
    assert(text::dec_nat(11) == seq!['1'].push('1'));
    assert(function_key_name(11) =~= seq!['F', '1', '1']);
    assert(text::dec_nat(12) == seq!['1'].push('2'));
    assert(function_key_name(12) =~= seq!['F', '1', '2']);
}

/// Function keys F1 to F12 are the Windows virtual-key codes 0x70 to 0x7B in
/// order: `Fn` reads as code 0x6F + n, alone or after the modifiers that a
/// recorded hotkey names.
pub proof fn lemma_function_keys(ctrl: bool, shift: bool, alt: bool, win: bool, n: nat, scan: i16)
    requires
        1 <= n <= 12,
    ensures
        hotkey_spec(function_key_name(n), scan) == Some((0u32, (0x6F + n) as u32)),
        hotkey_spec(hotkey_display_spec(ctrl, shift, alt, win, function_key_name(n)), scan) == Some(
            (modifier_mask(ctrl, shift, alt, win), (0x6F + n) as u32),
        ),
{
    lemma_function_key_names();
    reveal_named_keys();
    let k = function_key_name(n);
    assert(k[0] == 'F');
    text::lemma_dec_nat_digits(n);
    assert(text::is_digit(k.last()));
    assert(no_plus(k)) by {
        assert forall|i: int| 0 <= i < k.len() implies k[i] != '+' by {
            if i > 0 {
                assert(k[i] == text::dec_nat(n)[i - 1]);
            }
        }
    }
    text::lemma_trim_noop(k, CharClass::Nul);
    lemma_bare_key(k, scan);
    lemma_recorded_hotkey_parses(ctrl, shift, alt, win, k, scan);
}

/// The other named keys read as their Windows virtual-key codes: Page Up,
/// Page Down, End, Home and the arrows Left, Up, Right, Down are 0x21 to 0x28
/// in that order.
pub proof fn lemma_named_keys(scan: i16)
    ensures
        hotkey_spec("Insert"@, scan) == Some((0u32, 0x2Du32)),
        hotkey_spec("Delete"@, scan) == Some((0u32, 0x2Eu32)),
        hotkey_spec("Home"@, scan) == Some((0u32, 0x24u32)),
        hotkey_spec("End"@, scan) == Some((0u32, 0x23u32)),
        hotkey_spec("Page Up"@, scan) == Some((0u32, 0x21u32)),
        hotkey_spec("Page Down"@, scan) == Some((0u32, 0x22u32)),
        hotkey_spec("Left"@, scan) == Some((0u32, 0x25u32)),
        hotkey_spec("Up"@, scan) == Some((0u32, 0x26u32)),
        hotkey_spec("Right"@, scan) == Some((0u32, 0x27u32)),
        hotkey_spec("Down"@, scan) == Some((0u32, 0x28u32)),
        hotkey_spec("Space"@, scan) == Some((0u32, 0x20u32)),
        hotkey_spec("Tab"@, scan) == Some((0u32, 0x09u32)),
        hotkey_spec("Enter"@, scan) == Some((0u32, 0x0Du32)),
        hotkey_spec("Backspace"@, scan) == Some((0u32, 0x08u32)),
        hotkey_spec("Escape"@, scan) == Some((0u32, 0x1Bu32)),
        hotkey_spec("Num Lock"@, scan) == Some((0u32, 0x90u32)),
        hotkey_spec("Scroll Lock"@, scan) == Some((0u32, 0x91u32)),
        hotkey_spec("Pause"@, scan) == Some((0u32, 0x13u32)),
{
    reveal_key_names();
    lemma_bare_key("Insert"@, scan);
    lemma_bare_key("Delete"@, scan);
    lemma_bare_key("Home"@, scan);
    lemma_bare_key("End"@, scan);
    lemma_bare_key("Page Up"@, scan);
    lemma_bare_key("Page Down"@, scan);
    lemma_bare_key("Left"@, scan);
    lemma_bare_key("Up"@, scan);
    lemma_bare_key("Right"@, scan);
    lemma_bare_key("Down"@, scan);
    lemma_bare_key("Space"@, scan);
    lemma_bare_key("Tab"@, scan);
    lemma_bare_key("Enter"@, scan);
    lemma_bare_key("Backspace"@, scan);
    lemma_bare_key("Escape"@, scan);
    lemma_bare_key("Num Lock"@, scan);
    lemma_bare_key("Scroll Lock"@, scan);
    lemma_bare_key("Pause"@, scan);
}

/// The modifier mask has `MOD_ALT` 1, `MOD_CONTROL` 2, `MOD_SHIFT` 4 and
/// `MOD_WIN` 8 for the held modifiers, as `RegisterHotKey` reads it.
pub proof fn lemma_modifier_mask_bits(ctrl: bool, shift: bool, alt: bool, win: bool)
    ensures
        modifier_mask(ctrl, shift, alt, win) as int == (if ctrl {
            2int
        } else {
            0
        }) + (if shift {
            4int
        } else {
            0
        }) + (if alt {
            1int
        } else {
            0
        }) + (if win {
            8int
        } else {
            0
        }),
{
    let c: u32 = if ctrl {
        2
    } else {
        0
    };
    let s: u32 = if shift {
        4
    } else {
        0
    };
    let a: u32 = if alt {
        1
    } else {
        0
    };
    let w: u32 = if win {
        8
    } else {
        0
    };
    assert((c == 0 || c == 2) && (s == 0 || s == 4) && (a == 0 || a == 1) && (w == 0 || w == 8)
        ==> (c | s | a | w) as int == c + s + a + w) by (bit_vector);
}

/// The key-name `lParam` carries the scan code in bits 16 to 23 and sets
/// bit 24 exactly for the keys of the navigation cluster: virtual keys 0x21
/// to 0x28 (Page Up, Page Down, End, Home and the arrows), Insert 0x2D,
/// Delete 0x2E, Help 0x2F and the keypad's Divide 0x6F.
pub proof fn lemma_key_name_lparam_bits(vk: u32, scan_code: u32)
    requires
        scan_code <= 0xFF,
    ensures
        key_name_lparam_spec(vk, scan_code) as int == scan_code * 0x10000 + (if (0x21 <= vk
            <= 0x28) || vk == 0x2D || vk == 0x2E || vk == 0x2F || vk == 0x6F {
            0x0100_0000int
        } else {
            0
        }),
{
    assert(scan_code <= 0xFF ==> ((scan_code << 16u32) | (1u32 << 24u32)) as i32 as int
        == scan_code * 0x10000 + 0x0100_0000) by (bit_vector);
    assert(scan_code <= 0xFF ==> (scan_code << 16u32) as i32 as int == scan_code * 0x10000)
        by (bit_vector);
}

/// The modifiers of a recorded hotkey as they stand before its key: each
/// held one followed by `+`, in the order Ctrl, Shift, Alt, Win.
pub open spec fn held_prefix(ctrl: bool, shift: bool, alt: bool, win: bool) -> Seq<char> {
    (if ctrl {
        "Ctrl"@ + seq!['+']
    } else {
        Seq::empty()
    }) + (if shift {
        "Shift"@ + seq!['+']
    } else {
        Seq::empty()
    }) + (if alt {
        "Alt"@ + seq!['+']
    } else {
        Seq::empty()
    }) + (if win {
        "Win"@ + seq!['+']
    } else {
        Seq::empty()
    })
}

spec fn plus_prefix(n: Seq<Seq<char>>) -> Seq<char> {
    if join_plus(n).len() == 0 {
        Seq::empty()
    } else {
        join_plus(n) + seq!['+']
    }
}

proof fn lemma_prefix_step(n: Seq<Seq<char>>, p: Seq<char>)
    requires
        forall|i: int| 0 <= i < n.len() ==> (#[trigger] n[i]).len() > 0,
        p.len() > 0,
    ensures
        plus_prefix(n.push(p)) == plus_prefix(n) + (p + seq!['+']),
{
    lemma_join_plus_push(n, p);
    if join_plus(n).len() == 0 {
        assert(plus_prefix(n.push(p)) =~= plus_prefix(n) + (p + seq!['+']));
    } else {
        assert(plus_prefix(n.push(p)) =~= plus_prefix(n) + (p + seq!['+']));
    }
}

/// The text recorded for a hotkey is the held modifiers, each followed by
/// `+`, in the order Ctrl, Shift, Alt, Win, then the key's name without the
/// NUL characters at its ends.
pub proof fn lemma_display_text(ctrl: bool, shift: bool, alt: bool, win: bool, key_name: Seq<char>)
    ensures
        hotkey_display_spec(ctrl, shift, alt, win, key_name) == held_prefix(ctrl, shift, alt, win)
            + text::trim_by(key_name, CharClass::Nul),
{
    reveal_strlit("Ctrl");
    reveal_strlit("Shift");
    reveal_strlit("Alt");
    reveal_strlit("Win");
    assert("Ctrl"@.len() == 4);
    assert("Shift"@.len() == 5);
    assert("Alt"@.len() == 3);
    assert("Win"@.len() == 3);
    let e = Seq::<char>::empty();
    let n0: Seq<Seq<char>> = seq![];
    let n1 = if ctrl {
        n0.push("Ctrl"@)
    } else {
        n0
    };
    let n2 = if shift {
        n1.push("Shift"@)
    } else {
        n1
    };
    let n3 = if alt {
        n2.push("Alt"@)
    } else {
        n2
    };
    let n4 = if win {
        n3.push("Win"@)
    } else {
        n3
    };
    assert(n4 =~= modifier_names(ctrl, shift, alt, win));
    let q1 = if ctrl {
        "Ctrl"@ + seq!['+']
    } else {
        e
    };
    let q2 = if shift {
        "Shift"@ + seq!['+']
    } else {
        e
    };
    let q3 = if alt {
        "Alt"@ + seq!['+']
    } else {
        e
    };
    let q4 = if win {
        "Win"@ + seq!['+']
    } else {
        e
    };
    assert(plus_prefix(n0) == e);
    if ctrl {
        lemma_prefix_step(n0, "Ctrl"@);
    }
    assert(plus_prefix(n1) =~= q1);
    if shift {
        lemma_prefix_step(n1, "Shift"@);
    }
    assert(plus_prefix(n2) =~= q1 + q2);
    if alt {
        lemma_prefix_step(n2, "Alt"@);
    }
    assert(plus_prefix(n3) =~= q1 + q2 + q3);
    if win {
        lemma_prefix_step(n3, "Win"@);
    }
    assert(plus_prefix(n4) =~= q1 + q2 + q3 + q4);
    assert(held_prefix(ctrl, shift, alt, win) == q1 + q2 + q3 + q4);
    let k = text::trim_by(key_name, CharClass::Nul);
    let mods = join_plus(n4);
    if mods.len() == 0 {
        assert(hotkey_display_spec(ctrl, shift, alt, win, key_name) =~= plus_prefix(n4) + k);
    } else {
        assert(hotkey_display_spec(ctrl, shift, alt, win, key_name) =~= plus_prefix(n4) + k);
    }
}

/// Recording a hotkey waits past the bare modifier keys (Shift 0x10, Ctrl
/// 0x11, Alt 0x12, their left and right keys 0xA0 to 0xA5, and the Windows
/// keys 0x5B and 0x5C); digits, letters, function keys, Space, the
/// navigation keys, Insert and Delete end it.
pub proof fn lemma_modifier_keys(vk: u32)
    ensures
        (vk == 0x10 || vk == 0x11 || vk == 0x12 || (0xA0 <= vk <= 0xA5) || vk == 0x5B || vk
            == 0x5C) ==> is_modifier_vk_spec(vk),
        ((0x30 <= vk <= 0x39) || (0x41 <= vk <= 0x5A) || (0x70 <= vk <= 0x7B) || (0x20 <= vk
            <= 0x28) || vk == 0x2D || vk == 0x2E) ==> !is_modifier_vk_spec(vk),
{
}

/// A key written as one ASCII character other than `+` is looked up in the
/// keyboard layout: a lower-case letter is asked for in upper case, any
/// other character as it is; the key's code is the low byte of what the
/// layout answers.
pub proof fn lemma_single_char_key(c: char, scan: i16)
    requires
        (c as u32) < 0x80,
        c != '+',
    ensures
        'a' <= c <= 'z' ==> (scan_char_spec(seq![c]) matches Some(u) && u as u32 + 32 == c as u32),
        !('a' <= c <= 'z') ==> scan_char_spec(seq![c]) == Some(c),
        hotkey_spec(seq![c], scan) == Some((0u32, (scan as u16 as u32) & 0xFF)),
{
    reveal_key_names();
    lemma_bare_key(seq![c], scan);
    assert(named_key_vk(seq![c]) is None);
    assert(((scan & 0xFFi16) as u32) == (scan as u16 as u32) & 0xFF) by (bit_vector);
    assert(split_plus(seq![c]) == seq![seq![c]]) by {
        lemma_split_plus_single(seq![c]);
    }
}

} // verus!
