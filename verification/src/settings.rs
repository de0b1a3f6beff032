//! The user's settings, how `mickey.ini` stores them, and how the values
//! typed into the settings window are read.
use vstd::prelude::*;
use crate::color;
use crate::state::MuteState;
use crate::text;
use crate::text::CharClass;

verus! {

/// The configurable part of the application state.
#[derive(Clone)]
pub struct Settings {
    pub show_tray_icon: bool,
    pub show_overlay: bool,
    /// Indicator size in pixels, 1 to 64.
    pub glyph_size: i32,
    /// 0 top-left, 1 top-right, 2 bottom-left, 3 bottom-right.
    pub glyph_corner: u32,
    /// Distance from the corner, -9999 to 9999.
    pub offset_x: i32,
    pub offset_y: i32,
    /// 0 the microphone icon, 1 circle, 2 square.
    pub glyph_shape: u32,
    /// Capture device id; empty for the default communication device.
    pub device_override: String,
    /// Human-readable hotkey such as `Ctrl+Alt+M`.
    pub hotkey_str: String,
    /// 0 toggle, 1 push-to-talk, 2 push-to-mute.
    pub hotkey_mode: u32,
    pub color_muted: [u8; 3],
    pub color_unmuted: [u8; 3],
    pub color_error: [u8; 3],
    /// Opacities in percent, 0 to 100.
    pub opacity_muted: u8,
    pub opacity_unmuted: u8,
    pub opacity_error: u8,
}

/// The settings as mathematical values.
pub ghost struct SettingsView {
    pub show_tray_icon: bool,
    pub show_overlay: bool,
    pub glyph_size: i32,
    pub glyph_corner: u32,
    pub offset_x: i32,
    pub offset_y: i32,
    pub glyph_shape: u32,
    pub device_override: Seq<char>,
    pub hotkey_str: Seq<char>,
    pub hotkey_mode: u32,
    pub color_muted: [u8; 3],
    pub color_unmuted: [u8; 3],
    pub color_error: [u8; 3],
    pub opacity_muted: u8,
    pub opacity_unmuted: u8,
    pub opacity_error: u8,
}

impl View for Settings {
    type V = SettingsView;

    open spec fn view(&self) -> SettingsView {
        SettingsView {
            show_tray_icon: self.show_tray_icon,
            show_overlay: self.show_overlay,
            glyph_size: self.glyph_size,
            glyph_corner: self.glyph_corner,
            offset_x: self.offset_x,
            offset_y: self.offset_y,
            glyph_shape: self.glyph_shape,
            device_override: self.device_override@,
            hotkey_str: self.hotkey_str@,
            hotkey_mode: self.hotkey_mode,
            color_muted: self.color_muted,
            color_unmuted: self.color_unmuted,
            color_error: self.color_error,
            opacity_muted: self.opacity_muted,
            opacity_unmuted: self.opacity_unmuted,
            opacity_error: self.opacity_error,
        }
    }
}

/// The settings a fresh installation starts with.
pub open spec fn default_settings() -> SettingsView {
    SettingsView {
        show_tray_icon: true,
        show_overlay: true,
        glyph_size: 24,
        glyph_corner: 0,
        offset_x: 8,
        offset_y: 8,
        glyph_shape: 0,
        device_override: Seq::empty(),
        hotkey_str: Seq::empty(),
        hotkey_mode: 0,
        color_muted: [255, 0, 0],
        color_unmuted: [0, 255, 0],
        color_error: [128, 128, 128],
        opacity_muted: 100,
        opacity_unmuted: 100,
        opacity_error: 100,
    }
}

impl Default for Settings {
    fn default() -> (s: Settings)
        ensures
            s@ == default_settings(),
    {
        Settings {
            show_tray_icon: true,
            show_overlay: true,
            glyph_size: 24,
            glyph_corner: 0,
            offset_x: 8,
            offset_y: 8,
            glyph_shape: 0,
            device_override: String::new(),
            hotkey_str: String::new(),
            hotkey_mode: 0,
            color_muted: [255, 0, 0],
            color_unmuted: [0, 255, 0],
            color_error: [128, 128, 128],
            opacity_muted: 100,
            opacity_unmuted: 100,
            opacity_error: 100,
        }
    }
}

pub open spec fn clamp(v: int, lo: int, hi: int) -> int {
    if v < lo {
        lo
    } else if v > hi {
        hi
    } else {
        v
    }
}

fn clamp_i32(v: i32, lo: i32, hi: i32) -> (r: i32)
    requires
        lo <= hi,
    ensures
        r == clamp(v as int, lo as int, hi as int),
{
    if v < lo {
        lo
    } else if v > hi {
        hi
    } else {
        v
    }
}

// ---------------------------------------------------------------------
// Reading mickey.ini
// ---------------------------------------------------------------------

/// The position of the first `c` in `s`.
pub open spec fn find_char(s: Seq<char>, c: char) -> Option<int>
    decreases s.len(),
{
    if s.len() == 0 {
        None
    } else if s[0] == c {
        Some(0)
    } else {
        match find_char(s.drop_first(), c) {
            Some(i) => Some(i + 1),
            None => None,
        }
    }
}

/// The key and the value of a settings line, each trimmed; none for blank
/// lines, comments (`;` or `#`) and lines without `=`.
pub open spec fn ini_key_value(line: Seq<char>) -> Option<(Seq<char>, Seq<char>)> {
    let t = text::trim_ws(line);
    if t.len() == 0 || t[0] == ';' || t[0] == '#' {
        None
    } else {
        match find_char(t, '=') {
            Some(i) => Some((text::trim_ws(t.take(i)), text::trim_ws(t.skip(i + 1)))),
            None => None,
        }
    }
}

pub open spec fn is_color_key(key: Seq<char>) -> bool {
    key == "color_muted"@ || key == "color_unmuted"@ || key == "color_error"@
}

/// A line that the settings reader takes without panicking: colour values
/// are sliced by bytes.
pub open spec fn ini_line_readable(line: Seq<char>) -> bool {
    match ini_key_value(line) {
        Some((key, val)) => is_color_key(key) ==> color::color_hex_cuttable(val),
        None => true,
    }
}

/// The corner that a `glyph_corner` value names; anything else is top-left.
pub open spec fn corner_code(v: Seq<char>) -> u32 {
    if v == "top-left"@ || v == "0"@ {
        0
    } else if v == "top-right"@ || v == "1"@ {
        1
    } else if v == "bottom-left"@ || v == "2"@ {
        2
    } else if v == "bottom-right"@ || v == "3"@ {
        3
    } else {
        0
    }
}

/// The shape that a `glyph_shape` value names; anything else is the icon.
pub open spec fn shape_code(v: Seq<char>) -> u32 {
    if v == "icon"@ || v == "0"@ {
        0
    } else if v == "circle"@ || v == "1"@ {
        1
    } else if v == "square"@ || v == "2"@ {
        2
    } else {
        0
    }
}

/// The hotkey mode that a `hotkey_mode` value names; anything else is toggle.
pub open spec fn mode_code(v: Seq<char>) -> u32 {
    if v == "toggle"@ || v == "0"@ {
        0
    } else if v == "ptt"@ || v == "1"@ {
        1
    } else if v == "ptm"@ || v == "2"@ {
        2
    } else {
        0
    }
}

pub open spec fn opacity_value(v: Seq<char>) -> Option<u8> {
    match text::parse_u8_spec(v) {
        Some(n) => Some(if n > 100 {
            100u8
        } else {
            n
        }),
        None => None,
    }
}

/// The settings after one `key = value` pair of the settings file.
pub open spec fn ini_assign(st: SettingsView, key: Seq<char>, val: Seq<char>) -> SettingsView {
    if key == "show_tray_icon"@ {
        match text::parse_bool_spec(val) {
            Some(b) => SettingsView { show_tray_icon: b, ..st },
            None => st,
        }
    } else if key == "show_overlay"@ {
        match text::parse_bool_spec(val) {
            Some(b) => SettingsView { show_overlay: b, ..st },
            None => st,
        }
    } else if key == "glyph_size"@ {
        match text::parse_i32_spec(val) {
            Some(n) => SettingsView { glyph_size: clamp(n as int, 1, 64) as i32, ..st },
            None => st,
        }
    } else if key == "glyph_corner"@ {
        SettingsView { glyph_corner: corner_code(val), ..st }
    } else if key == "offset_x"@ {
        match text::parse_i32_spec(val) {
            Some(n) => SettingsView { offset_x: clamp(n as int, -9999, 9999) as i32, ..st },
            None => st,
        }
    } else if key == "offset_y"@ {
        match text::parse_i32_spec(val) {
            Some(n) => SettingsView { offset_y: clamp(n as int, -9999, 9999) as i32, ..st },
            None => st,
        }
    } else if key == "glyph_shape"@ {
        SettingsView { glyph_shape: shape_code(val), ..st }
    } else if key == "device_override"@ {
        SettingsView {
            device_override: if val == "default"@ {
                Seq::empty()
            } else {
                val
            },
            ..st
        }
    } else if key == "selected_device_id"@ {
        SettingsView { device_override: val, ..st }
    } else if key == "hotkey_str"@ {
        SettingsView { hotkey_str: val, ..st }
    } else if key == "hotkey_mode"@ {
        SettingsView { hotkey_mode: mode_code(val), ..st }
    } else if key == "color_muted"@ {
        match color::parse_color_hex_spec(val) {
            Some(c) => SettingsView { color_muted: c, ..st },
            None => st,
        }
    } else if key == "color_unmuted"@ {
        match color::parse_color_hex_spec(val) {
            Some(c) => SettingsView { color_unmuted: c, ..st },
            None => st,
        }
    } else if key == "color_error"@ {
        match color::parse_color_hex_spec(val) {
            Some(c) => SettingsView { color_error: c, ..st },
            None => st,
        }
    } else if key == "opacity_muted"@ {
        match opacity_value(val) {
            Some(n) => SettingsView { opacity_muted: n, ..st },
            None => st,
        }
    } else if key == "opacity_unmuted"@ {
        match opacity_value(val) {
            Some(n) => SettingsView { opacity_unmuted: n, ..st },
            None => st,
        }
    } else if key == "opacity_error"@ {
        match opacity_value(val) {
            Some(n) => SettingsView { opacity_error: n, ..st },
            None => st,
        }
    } else {
        st
    }
}

/// The settings after one line of the settings file.
#[verifier::opaque]
pub open spec fn ini_line_update(st: SettingsView, line: Seq<char>) -> SettingsView {
    match ini_key_value(line) {
        Some((key, val)) => ini_assign(st, key, val),
        None => st,
    }
}

/// The settings after the lines of the settings file, read in order.
pub open spec fn ini_lines_update(st: SettingsView, lines: Seq<Seq<char>>) -> SettingsView
    decreases lines.len(),
{
    if lines.len() == 0 {
        st
    } else {
        ini_line_update(ini_lines_update(st, lines.drop_last()), lines.last())
    }
}

fn find_char_index(s: &[char], c: char) -> (r: Option<usize>)
    ensures
        r matches Some(i) ==> find_char(s@, c) == Some(i as int) && i < s@.len(),
        r is None ==> find_char(s@, c) is None,
{
    let mut i: usize = 0;
    while i < s.len()
        invariant
            i <= s@.len(),
            forall|k: int| 0 <= k < i ==> s@[k] != c,
        decreases s@.len() - i,
    {
        if s[i] == c {
            proof {
                lemma_find_char_first(s@, c, i as int);
            }
            return Some(i);
        }
        i = i + 1;
    }
    proof {
        lemma_find_char_none(s@, c);
    }
    None
}

proof fn lemma_find_char_first(s: Seq<char>, c: char, i: int)
    requires
        0 <= i < s.len(),
        s[i] == c,
        forall|k: int| 0 <= k < i ==> s[k] != c,
    ensures
        find_char(s, c) == Some(i),
    decreases i,
{
    if i > 0 {
        lemma_find_char_first(s.drop_first(), c, i - 1);
    }
}

proof fn lemma_find_char_none(s: Seq<char>, c: char)
    requires
        forall|k: int| 0 <= k < s.len() ==> s[k] != c,
    ensures
        find_char(s, c) is None,
    decreases s.len(),
{
    if s.len() > 0 {
        lemma_find_char_none(s.drop_first(), c);
    }
}

fn sub_chars(s: &[char], lo: usize, hi: usize) -> (r: Vec<char>)
    requires
        lo <= hi <= s@.len(),
    ensures
        r@ == s@.subrange(lo as int, hi as int),
{
    let mut r: Vec<char> = Vec::new();
    let mut i: usize = lo;
    while i < hi
        invariant
            lo <= i <= hi <= s@.len(),
            r@ == s@.subrange(lo as int, i as int),
        decreases hi - i,
    {
        r.push(s[i]);
        i = i + 1;
    }
    r
}

fn corner_from_chars(v: &[char]) -> (r: u32)
    ensures
        r == corner_code(v@),
{
    if text::chars_eq_str(v, "top-left") || text::chars_eq_str(v, "0") {
        0
    } else if text::chars_eq_str(v, "top-right") || text::chars_eq_str(v, "1") {
        1
    } else if text::chars_eq_str(v, "bottom-left") || text::chars_eq_str(v, "2") {
        2
    } else if text::chars_eq_str(v, "bottom-right") || text::chars_eq_str(v, "3") {
        3
    } else {
        0
    }
}

fn shape_from_chars(v: &[char]) -> (r: u32)
    ensures
        r == shape_code(v@),
{
    if text::chars_eq_str(v, "icon") || text::chars_eq_str(v, "0") {
        0
    } else if text::chars_eq_str(v, "circle") || text::chars_eq_str(v, "1") {
        1
    } else if text::chars_eq_str(v, "square") || text::chars_eq_str(v, "2") {
        2
    } else {
        0
    }
}

fn mode_from_chars(v: &[char]) -> (r: u32)
    ensures
        r == mode_code(v@),
{
    if text::chars_eq_str(v, "toggle") || text::chars_eq_str(v, "0") {
        0
    } else if text::chars_eq_str(v, "ptt") || text::chars_eq_str(v, "1") {
        1
    } else if text::chars_eq_str(v, "ptm") || text::chars_eq_str(v, "2") {
        2
    } else {
        0
    }
}

fn opacity_from_chars(v: &[char]) -> (r: Option<u8>)
    ensures
        r == opacity_value(v@),
{
    match text::parse_u8(v) {
        Some(n) => Some(if n > 100 {
            100u8
        } else {
            n
        }),
        None => None,
    }
}

fn ini_assign_exec(st: &mut Settings, key: &[char], val: &[char])
    requires
        is_color_key(key@) ==> color::color_hex_cuttable(val@),
    ensures
        final(st)@ == ini_assign(old(st)@, key@, val@),
{
    if text::chars_eq_str(key, "show_tray_icon") {
        if let Some(b) = text::parse_bool(val) {
            st.show_tray_icon = b;
        }
    } else if text::chars_eq_str(key, "show_overlay") {
        if let Some(b) = text::parse_bool(val) {
            st.show_overlay = b;
        }
    } else if text::chars_eq_str(key, "glyph_size") {
        if let Some(n) = text::parse_i32(val) {
            st.glyph_size = clamp_i32(n, 1, 64);
        }
    } else if text::chars_eq_str(key, "glyph_corner") {
        st.glyph_corner = corner_from_chars(val);
    } else if text::chars_eq_str(key, "offset_x") {
        if let Some(n) = text::parse_i32(val) {
            st.offset_x = clamp_i32(n, -9999, 9999);
        }
    } else if text::chars_eq_str(key, "offset_y") {
        if let Some(n) = text::parse_i32(val) {
            st.offset_y = clamp_i32(n, -9999, 9999);
        }
    } else if text::chars_eq_str(key, "glyph_shape") {
        st.glyph_shape = shape_from_chars(val);
    } else if text::chars_eq_str(key, "device_override") {
        if text::chars_eq_str(val, "default") {
            st.device_override = String::new();
        } else {
            st.device_override = text::string_of(val);
        }
    } else if text::chars_eq_str(key, "selected_device_id") {
        st.device_override = text::string_of(val);
    } else if text::chars_eq_str(key, "hotkey_str") {
        st.hotkey_str = text::string_of(val);
    } else if text::chars_eq_str(key, "hotkey_mode") {
        st.hotkey_mode = mode_from_chars(val);
    } else if text::chars_eq_str(key, "color_muted") {
        if let Some(c) = color::parse_color_hex_chars(val) {
            st.color_muted = c;
        }
    } else if text::chars_eq_str(key, "color_unmuted") {
        if let Some(c) = color::parse_color_hex_chars(val) {
            st.color_unmuted = c;
        }
    } else if text::chars_eq_str(key, "color_error") {
        if let Some(c) = color::parse_color_hex_chars(val) {
            st.color_error = c;
        }
    } else if text::chars_eq_str(key, "opacity_muted") {
        if let Some(n) = opacity_from_chars(val) {
            st.opacity_muted = n;
        }
    } else if text::chars_eq_str(key, "opacity_unmuted") {
        if let Some(n) = opacity_from_chars(val) {
            st.opacity_unmuted = n;
        }
    } else if text::chars_eq_str(key, "opacity_error") {
        if let Some(n) = opacity_from_chars(val) {
            st.opacity_error = n;
        }
    }
}

/// Applies one line of `mickey.ini` to the settings.
pub fn apply_ini_line(st: &mut Settings, line: &str)
    requires
        ini_line_readable(line@),
    ensures
        final(st)@ == ini_line_update(old(st)@, line@),
{
    reveal(ini_line_update);
    let chars = text::chars_of(line);
    let t = text::trim_chars(chars.as_slice(), CharClass::WhiteSpace);
    if t.len() == 0 || t[0] == ';' || t[0] == '#' {
        return;
    }
    match find_char_index(t.as_slice(), '=') {
        None => {},
        Some(idx) => {
            let k = sub_chars(t.as_slice(), 0, idx);
            let v = sub_chars(t.as_slice(), idx + 1, t.len());
            assert(k@ =~= t@.take(idx as int));
            assert(v@ =~= t@.skip(idx + 1));
            let key = text::trim_chars(k.as_slice(), CharClass::WhiteSpace);
            let val = text::trim_chars(v.as_slice(), CharClass::WhiteSpace);
            ini_assign_exec(st, key.as_slice(), val.as_slice());
        },
    }
}

/// Whether `apply_ini_line` takes the line: a colour value whose byte cuts
/// fall inside a character is refused (slicing it would panic).
pub fn ini_line_is_readable(line: &str) -> (r: bool)
    ensures
        r == ini_line_readable(line@),
{
    let chars = text::chars_of(line);
    let t = text::trim_chars(chars.as_slice(), CharClass::WhiteSpace);
    if t.len() == 0 || t[0] == ';' || t[0] == '#' {
        return true;
    }
    match find_char_index(t.as_slice(), '=') {
        None => true,
        Some(idx) => {
            let k = sub_chars(t.as_slice(), 0, idx);
            let v = sub_chars(t.as_slice(), idx + 1, t.len());
            assert(k@ =~= t@.take(idx as int));
            assert(v@ =~= t@.skip(idx + 1));
            let key = text::trim_chars(k.as_slice(), CharClass::WhiteSpace);
            let val = text::trim_chars(v.as_slice(), CharClass::WhiteSpace);
            if text::chars_eq_str(key.as_slice(), "color_muted") || text::chars_eq_str(
                key.as_slice(),
                "color_unmuted",
            ) || text::chars_eq_str(key.as_slice(), "color_error") {
                color::color_hex_is_cuttable(val.as_slice())
            } else {
                true
            }
        },
    }
}

pub open spec fn lines_view(lines: Seq<String>) -> Seq<Seq<char>> {
    lines.map_values(|l: String| l@)
}

/// Applies the lines of `mickey.ini`, in order, to `base`.
pub fn load_settings_lines(lines: &Vec<String>, base: Settings) -> (r: Settings)
    requires
        forall|i: int| 0 <= i < lines@.len() ==> ini_line_readable(#[trigger] lines@[i]@),
    ensures
        r@ == ini_lines_update(base@, lines_view(lines@)),
{
    let mut st = base;
    let mut i: usize = 0;
    while i < lines.len()
        invariant
            i <= lines@.len(),
            forall|j: int| 0 <= j < lines@.len() ==> ini_line_readable(#[trigger] lines@[j]@),
            st@ == ini_lines_update(base@, lines_view(lines@.take(i as int))),
        decreases lines@.len() - i,
    {
        apply_ini_line(&mut st, lines[i].as_str());
        assert(lines_view(lines@.take(i + 1)).drop_last() =~= lines_view(lines@.take(i as int)));
        i = i + 1;
    }
    assert(lines@.take(lines@.len() as int) =~= lines@);
    st
}

// ---------------------------------------------------------------------
// Writing mickey.ini
// ---------------------------------------------------------------------

/// How a corner is written; any value above 2 is written as bottom-right.
pub open spec fn corner_text(c: u32) -> Seq<char> {
    if c == 0 {
        "top-left"@
    } else if c == 1 {
        "top-right"@
    } else if c == 2 {
        "bottom-left"@
    } else {
        "bottom-right"@
    }
}

/// How a shape is written; any value above 1 is written as square.
pub open spec fn shape_text(c: u32) -> Seq<char> {
    if c == 0 {
        "icon"@
    } else if c == 1 {
        "circle"@
    } else {
        "square"@
    }
}

/// How a hotkey mode is written; any value above 1 is written as ptm.
pub open spec fn mode_text(c: u32) -> Seq<char> {
    if c == 0 {
        "toggle"@
    } else if c == 1 {
        "ptt"@
    } else {
        "ptm"@
    }
}

pub open spec fn key_line(key: Seq<char>, val: Seq<char>) -> Seq<char> {
    key + seq!['='] + val
}

/// The lines of `mickey.ini` for the settings `s`, in the order written.
pub open spec fn ini_text_lines(s: SettingsView) -> Seq<Seq<char>> {
    seq![
        "[Settings]"@,
        key_line("show_tray_icon"@, text::bool_text(s.show_tray_icon)),
        key_line("show_overlay"@, text::bool_text(s.show_overlay)),
        key_line("glyph_size"@, text::dec_int(s.glyph_size as int)),
        key_line("glyph_corner"@, corner_text(s.glyph_corner)),
        key_line("offset_x"@, text::dec_int(s.offset_x as int)),
        key_line("offset_y"@, text::dec_int(s.offset_y as int)),
        key_line("glyph_shape"@, shape_text(s.glyph_shape)),
        key_line("device_override"@, s.device_override),
        key_line("hotkey_str"@, s.hotkey_str),
        key_line("hotkey_mode"@, mode_text(s.hotkey_mode)),
        key_line("color_muted"@, color::color_hex_text(s.color_muted)),
        key_line("opacity_muted"@, text::dec_int(s.opacity_muted as int)),
        key_line("color_unmuted"@, color::color_hex_text(s.color_unmuted)),
        key_line("opacity_unmuted"@, text::dec_int(s.opacity_unmuted as int)),
        key_line("color_error"@, color::color_hex_text(s.color_error)),
        key_line("opacity_error"@, text::dec_int(s.opacity_error as int)),
    ]
}

fn corner_name(c: u32) -> (r: &'static str)
    ensures
        r@ == corner_text(c),
{
    if c == 0 {
        "top-left"
    } else if c == 1 {
        "top-right"
    } else if c == 2 {
        "bottom-left"
    } else {
        "bottom-right"
    }
}

fn shape_name(c: u32) -> (r: &'static str)
    ensures
        r@ == shape_text(c),
{
    if c == 0 {
        "icon"
    } else if c == 1 {
        "circle"
    } else {
        "square"
    }
}

fn mode_name(c: u32) -> (r: &'static str)
    ensures
        r@ == mode_text(c),
{
    if c == 0 {
        "toggle"
    } else if c == 1 {
        "ptt"
    } else {
        "ptm"
    }
}

fn line_with(key: &str, val: &[char]) -> (r: String)
    ensures
        r@ == key_line(key@, val@),
{
    let mut v = text::chars_of(key);
    v.push('=');
    text::extend_chars(&mut v, val);
    text::string_of(v.as_slice())
}

fn bool_line(key: &str, b: bool) -> (r: String)
    ensures
        r@ == key_line(key@, text::bool_text(b)),
{
    let mut v: Vec<char> = Vec::new();
    text::push_bool(&mut v, b);
    assert(v@ =~= text::bool_text(b));
    line_with(key, v.as_slice())
}

fn int_line(key: &str, n: i32) -> (r: String)
    ensures
        r@ == key_line(key@, text::dec_int(n as int)),
{
    let mut v: Vec<char> = Vec::new();
    text::push_i32(&mut v, n);
    assert(v@ =~= text::dec_int(n as int));
    line_with(key, v.as_slice())
}

fn name_line(key: &str, name: &str) -> (r: String)
    ensures
        r@ == key_line(key@, name@),
{
    let v = text::chars_of(name);
    line_with(key, v.as_slice())
}

fn color_line(key: &str, c: [u8; 3]) -> (r: String)
    ensures
        r@ == key_line(key@, color::color_hex_text(c)),
{
    let h = color::fmt_color_hex(c);
    name_line(key, h.as_str())
}

/// The lines of `mickey.ini` for the settings `s`.
pub fn settings_ini_lines(s: &Settings) -> (r: Vec<String>)
    ensures
        lines_view(r@) == ini_text_lines(s@),
{
    let mut r: Vec<String> = Vec::new();
    let h = text::chars_of("[Settings]");
    r.push(text::string_of(h.as_slice()));
    r.push(bool_line("show_tray_icon", s.show_tray_icon));
    r.push(bool_line("show_overlay", s.show_overlay));
    r.push(int_line("glyph_size", s.glyph_size));
    r.push(name_line("glyph_corner", corner_name(s.glyph_corner)));
    r.push(int_line("offset_x", s.offset_x));
    r.push(int_line("offset_y", s.offset_y));
    r.push(name_line("glyph_shape", shape_name(s.glyph_shape)));
    r.push(name_line("device_override", s.device_override.as_str()));
    r.push(name_line("hotkey_str", s.hotkey_str.as_str()));
    r.push(name_line("hotkey_mode", mode_name(s.hotkey_mode)));
    r.push(color_line("color_muted", s.color_muted));
    r.push(int_line("opacity_muted", s.opacity_muted as i32));
    r.push(color_line("color_unmuted", s.color_unmuted));
    r.push(int_line("opacity_unmuted", s.opacity_unmuted as i32));
    r.push(color_line("color_error", s.color_error));
    r.push(int_line("opacity_error", s.opacity_error as i32));
    assert(lines_view(r@) =~= ini_text_lines(s@));
    r
}

// ---------------------------------------------------------------------
// Writing then reading
// ---------------------------------------------------------------------

/// Neither end of `s` is white space.
pub open spec fn ends_not_white(s: Seq<char>) -> bool {
    s.len() > 0 ==> !text::is_white_space(s[0]) && !text::is_white_space(s.last())
}

/// Settings that `mickey.ini` stores exactly: every number in the range that
/// the reader keeps, every code one that has a name, and text values that the
/// reader's trimming and its `default` keyword leave alone.
pub open spec fn settings_storable(s: SettingsView) -> bool {
    &&& 1 <= s.glyph_size <= 64
    &&& s.glyph_corner <= 3
    &&& -9999 <= s.offset_x <= 9999
    &&& -9999 <= s.offset_y <= 9999
    &&& s.glyph_shape <= 2
    &&& s.hotkey_mode <= 2
    &&& s.opacity_muted <= 100
    &&& s.opacity_unmuted <= 100
    &&& s.opacity_error <= 100
    &&& ends_not_white(s.device_override)
    &&& s.device_override != "default"@
    &&& ends_not_white(s.hotkey_str)
}

/// A key that a line of the settings file can carry.
pub open spec fn plain_key(key: Seq<char>) -> bool {
    &&& key.len() > 0
    &&& !text::is_white_space(key[0])
    &&& key[0] != ';'
    &&& key[0] != '#'
    &&& !text::is_white_space(key.last())
    &&& forall|i: int| 0 <= i < key.len() ==> key[i] != '='
}

proof fn lemma_ini_key_value(key: Seq<char>, val: Seq<char>)
    requires
        plain_key(key),
        ends_not_white(val),
    ensures
        ini_key_value(key_line(key, val)) == Some((key, val)),
{
    let line = key_line(key, val);
    assert(line[0] == key[0]);
    if val.len() > 0 {
        assert(line.last() == val.last());
    } else {
        assert(line.last() == '=');
    }
    text::lemma_trim_noop(line, CharClass::WhiteSpace);
    assert(line[key.len() as int] == '=');
    assert forall|k: int| 0 <= k < key.len() implies line[k] != '=' by {
        assert(line[k] == key[k]);
    }
    lemma_find_char_first(line, '=', key.len() as int);
    assert(line.take(key.len() as int) =~= key);
    assert(line.skip(key.len() as int + 1) =~= val);
    text::lemma_trim_noop(key, CharClass::WhiteSpace);
    text::lemma_trim_noop(val, CharClass::WhiteSpace);
}

proof fn lemma_keys_plain()
    ensures
        plain_key("show_tray_icon"@),
        plain_key("show_overlay"@),
        plain_key("glyph_size"@),
        plain_key("glyph_corner"@),
        plain_key("offset_x"@),
        plain_key("offset_y"@),
        plain_key("glyph_shape"@),
        plain_key("device_override"@),
        plain_key("hotkey_str"@),
        plain_key("hotkey_mode"@),
        plain_key("color_muted"@),
        plain_key("opacity_muted"@),
        plain_key("color_unmuted"@),
        plain_key("opacity_unmuted"@),
        plain_key("color_error"@),
        plain_key("opacity_error"@),
{
    reveal_keys();
}

proof fn reveal_keys()
    ensures
        "show_tray_icon"@ == seq!['s', 'h', 'o', 'w', '_', 't', 'r', 'a', 'y', '_', 'i', 'c', 'o', 'n'],
        "show_overlay"@ == seq!['s', 'h', 'o', 'w', '_', 'o', 'v', 'e', 'r', 'l', 'a', 'y'],
        "glyph_size"@ == seq!['g', 'l', 'y', 'p', 'h', '_', 's', 'i', 'z', 'e'],
        "glyph_corner"@ == seq!['g', 'l', 'y', 'p', 'h', '_', 'c', 'o', 'r', 'n', 'e', 'r'],
        "offset_x"@ == seq!['o', 'f', 'f', 's', 'e', 't', '_', 'x'],
        "offset_y"@ == seq!['o', 'f', 'f', 's', 'e', 't', '_', 'y'],
        "glyph_shape"@ == seq!['g', 'l', 'y', 'p', 'h', '_', 's', 'h', 'a', 'p', 'e'],
        "device_override"@ == seq!['d', 'e', 'v', 'i', 'c', 'e', '_', 'o', 'v', 'e', 'r', 'r', 'i', 'd', 'e'],
        "selected_device_id"@ == seq!['s', 'e', 'l', 'e', 'c', 't', 'e', 'd', '_', 'd', 'e', 'v', 'i', 'c', 'e', '_', 'i', 'd'],
        "hotkey_str"@ == seq!['h', 'o', 't', 'k', 'e', 'y', '_', 's', 't', 'r'],
        "hotkey_mode"@ == seq!['h', 'o', 't', 'k', 'e', 'y', '_', 'm', 'o', 'd', 'e'],
        "color_muted"@ == seq!['c', 'o', 'l', 'o', 'r', '_', 'm', 'u', 't', 'e', 'd'],
        "color_unmuted"@ == seq!['c', 'o', 'l', 'o', 'r', '_', 'u', 'n', 'm', 'u', 't', 'e', 'd'],
        "color_error"@ == seq!['c', 'o', 'l', 'o', 'r', '_', 'e', 'r', 'r', 'o', 'r'],
        "opacity_muted"@ == seq!['o', 'p', 'a', 'c', 'i', 't', 'y', '_', 'm', 'u', 't', 'e', 'd'],
        "opacity_unmuted"@ == seq!['o', 'p', 'a', 'c', 'i', 't', 'y', '_', 'u', 'n', 'm', 'u', 't', 'e', 'd'],
        "opacity_error"@ == seq!['o', 'p', 'a', 'c', 'i', 't', 'y', '_', 'e', 'r', 'r', 'o', 'r'],
{
    reveal_strlit("show_tray_icon");
    reveal_strlit("show_overlay");
    reveal_strlit("glyph_size");
    reveal_strlit("glyph_corner");
    reveal_strlit("offset_x");
    reveal_strlit("offset_y");
    reveal_strlit("glyph_shape");
    reveal_strlit("device_override");
    reveal_strlit("selected_device_id");
    reveal_strlit("hotkey_str");
    reveal_strlit("hotkey_mode");
    reveal_strlit("color_muted");
    reveal_strlit("color_unmuted");
    reveal_strlit("color_error");
    reveal_strlit("opacity_muted");
    reveal_strlit("opacity_unmuted");
    reveal_strlit("opacity_error");
    assert("show_tray_icon"@ =~= seq!['s', 'h', 'o', 'w', '_', 't', 'r', 'a', 'y', '_', 'i', 'c', 'o', 'n']);
    assert("show_overlay"@ =~= seq!['s', 'h', 'o', 'w', '_', 'o', 'v', 'e', 'r', 'l', 'a', 'y']);
    assert("glyph_size"@ =~= seq!['g', 'l', 'y', 'p', 'h', '_', 's', 'i', 'z', 'e']);
    assert("glyph_corner"@ =~= seq!['g', 'l', 'y', 'p', 'h', '_', 'c', 'o', 'r', 'n', 'e', 'r']);
    assert("offset_x"@ =~= seq!['o', 'f', 'f', 's', 'e', 't', '_', 'x']);
    assert("offset_y"@ =~= seq!['o', 'f', 'f', 's', 'e', 't', '_', 'y']);
    assert("glyph_shape"@ =~= seq!['g', 'l', 'y', 'p', 'h', '_', 's', 'h', 'a', 'p', 'e']);
    assert("device_override"@ =~= seq!['d', 'e', 'v', 'i', 'c', 'e', '_', 'o', 'v', 'e', 'r', 'r', 'i', 'd', 'e']);
    assert("selected_device_id"@ =~= seq!['s', 'e', 'l', 'e', 'c', 't', 'e', 'd', '_', 'd', 'e', 'v', 'i', 'c', 'e', '_', 'i', 'd']);
    assert("hotkey_str"@ =~= seq!['h', 'o', 't', 'k', 'e', 'y', '_', 's', 't', 'r']);
    assert("hotkey_mode"@ =~= seq!['h', 'o', 't', 'k', 'e', 'y', '_', 'm', 'o', 'd', 'e']);
    assert("color_muted"@ =~= seq!['c', 'o', 'l', 'o', 'r', '_', 'm', 'u', 't', 'e', 'd']);
    assert("color_unmuted"@ =~= seq!['c', 'o', 'l', 'o', 'r', '_', 'u', 'n', 'm', 'u', 't', 'e', 'd']);
    assert("color_error"@ =~= seq!['c', 'o', 'l', 'o', 'r', '_', 'e', 'r', 'r', 'o', 'r']);
    assert("opacity_muted"@ =~= seq!['o', 'p', 'a', 'c', 'i', 't', 'y', '_', 'm', 'u', 't', 'e', 'd']);
    assert("opacity_unmuted"@ =~= seq!['o', 'p', 'a', 'c', 'i', 't', 'y', '_', 'u', 'n', 'm', 'u', 't', 'e', 'd']);
    assert("opacity_error"@ =~= seq!['o', 'p', 'a', 'c', 'i', 't', 'y', '_', 'e', 'r', 'r', 'o', 'r']);
}

proof fn reveal_names()
    ensures
        "top-left"@ == seq!['t', 'o', 'p', '-', 'l', 'e', 'f', 't'],
        "top-right"@ == seq!['t', 'o', 'p', '-', 'r', 'i', 'g', 'h', 't'],
        "bottom-left"@ == seq!['b', 'o', 't', 't', 'o', 'm', '-', 'l', 'e', 'f', 't'],
        "bottom-right"@ == seq!['b', 'o', 't', 't', 'o', 'm', '-', 'r', 'i', 'g', 'h', 't'],
        "icon"@ == seq!['i', 'c', 'o', 'n'],
        "circle"@ == seq!['c', 'i', 'r', 'c', 'l', 'e'],
        "square"@ == seq!['s', 'q', 'u', 'a', 'r', 'e'],
        "toggle"@ == seq!['t', 'o', 'g', 'g', 'l', 'e'],
        "ptt"@ == seq!['p', 't', 't'],
        "ptm"@ == seq!['p', 't', 'm'],
        "0"@ == seq!['0'],
        "1"@ == seq!['1'],
        "2"@ == seq!['2'],
        "3"@ == seq!['3'],
        "[Settings]"@ == seq!['[', 'S', 'e', 't', 't', 'i', 'n', 'g', 's', ']'],
{
    reveal_strlit("top-left");
    reveal_strlit("top-right");
    reveal_strlit("bottom-left");
    reveal_strlit("bottom-right");
    reveal_strlit("icon");
    reveal_strlit("circle");
    reveal_strlit("square");
    reveal_strlit("toggle");
    reveal_strlit("ptt");
    reveal_strlit("ptm");
    reveal_strlit("0");
    reveal_strlit("1");
    reveal_strlit("2");
    reveal_strlit("3");
    reveal_strlit("[Settings]");
    assert("top-left"@ =~= seq!['t', 'o', 'p', '-', 'l', 'e', 'f', 't']);
    assert("top-right"@ =~= seq!['t', 'o', 'p', '-', 'r', 'i', 'g', 'h', 't']);
    assert("bottom-left"@ =~= seq!['b', 'o', 't', 't', 'o', 'm', '-', 'l', 'e', 'f', 't']);
    assert("bottom-right"@ =~= seq!['b', 'o', 't', 't', 'o', 'm', '-', 'r', 'i', 'g', 'h', 't']);
    assert("icon"@ =~= seq!['i', 'c', 'o', 'n']);
    assert("circle"@ =~= seq!['c', 'i', 'r', 'c', 'l', 'e']);
    assert("square"@ =~= seq!['s', 'q', 'u', 'a', 'r', 'e']);
    assert("toggle"@ =~= seq!['t', 'o', 'g', 'g', 'l', 'e']);
    assert("ptt"@ =~= seq!['p', 't', 't']);
    assert("ptm"@ =~= seq!['p', 't', 'm']);
    assert("0"@ =~= seq!['0']);
    assert("1"@ =~= seq!['1']);
    assert("2"@ =~= seq!['2']);
    assert("3"@ =~= seq!['3']);
    assert("[Settings]"@ =~= seq!['[', 'S', 'e', 't', 't', 'i', 'n', 'g', 's', ']']);
}

proof fn lemma_dec_int_ends(n: int)
    ensures
        ends_not_white(text::dec_int(n)),
        text::dec_int(n).len() > 0,
{
    let m: nat = if n < 0 {
        (-n) as nat
    } else {
        n as nat
    };
    text::lemma_dec_nat_digits(m);
    let d = text::dec_nat(m);
    assert(text::is_digit(d[0]) && text::is_digit(d.last()));
    if n < 0 {
        assert(text::dec_int(n).last() == d.last());
    }
}

proof fn lemma_header_line(st: SettingsView)
    ensures
        ini_line_update(st, "[Settings]"@) == st,
        ini_line_readable("[Settings]"@),
{
    reveal(ini_line_update);
    reveal_names();
    let h = "[Settings]"@;
    text::lemma_trim_noop(h, CharClass::WhiteSpace);
    lemma_find_char_none(h, '=');
}

/// A written line is read as its key and value.
proof fn lemma_written_line(st: SettingsView, key: Seq<char>, val: Seq<char>)
    requires
        plain_key(key),
        ends_not_white(val),
        is_color_key(key) ==> color::color_hex_cuttable(val),
    ensures
        ini_line_update(st, key_line(key, val)) == ini_assign(st, key, val),
        ini_line_readable(key_line(key, val)),
{
    reveal(ini_line_update);
    lemma_ini_key_value(key, val);
}

proof fn lemma_color_text_ends(c: [u8; 3])
    ensures
        ends_not_white(color::color_hex_text(c)),
        color::color_hex_cuttable(color::color_hex_text(c)),
        color::parse_color_hex_spec(color::color_hex_text(c)) == Some(c),
{
    color::lemma_color_hex_round_trip(c);
}

proof fn lemma_line_show_tray_icon(st: SettingsView, s: SettingsView)
    requires
        settings_storable(s),
    ensures
        ini_line_update(st, ini_text_lines(s)[1]) == (SettingsView { show_tray_icon: s.show_tray_icon, ..st }),
        ini_line_readable(ini_text_lines(s)[1]),
{
    reveal_keys();
    reveal_names();
    lemma_keys_plain();
    text::lemma_parse_bool_text(s.show_tray_icon);
    lemma_written_line(st, "show_tray_icon"@, text::bool_text(s.show_tray_icon));
}

proof fn lemma_line_show_overlay(st: SettingsView, s: SettingsView)
    requires
        settings_storable(s),
    ensures
        ini_line_update(st, ini_text_lines(s)[2]) == (SettingsView { show_overlay: s.show_overlay, ..st }),
        ini_line_readable(ini_text_lines(s)[2]),
{
    reveal_keys();
    reveal_names();
    lemma_keys_plain();
    text::lemma_parse_bool_text(s.show_overlay);
    lemma_written_line(st, "show_overlay"@, text::bool_text(s.show_overlay));
}

proof fn lemma_line_glyph_size(st: SettingsView, s: SettingsView)
    requires
        settings_storable(s),
    ensures
        ini_line_update(st, ini_text_lines(s)[3]) == (SettingsView { glyph_size: s.glyph_size, ..st }),
        ini_line_readable(ini_text_lines(s)[3]),
{
    reveal_keys();
    reveal_names();
    lemma_keys_plain();
    lemma_dec_int_ends(s.glyph_size as int);
    text::lemma_parse_dec_i32(s.glyph_size);
    lemma_written_line(st, "glyph_size"@, text::dec_int(s.glyph_size as int));
}

proof fn lemma_line_glyph_corner(st: SettingsView, s: SettingsView)
    requires
        settings_storable(s),
    ensures
        ini_line_update(st, ini_text_lines(s)[4]) == (SettingsView { glyph_corner: s.glyph_corner, ..st }),
        ini_line_readable(ini_text_lines(s)[4]),
{
    reveal_keys();
    reveal_names();
    lemma_keys_plain();
    
    lemma_written_line(st, "glyph_corner"@, corner_text(s.glyph_corner));
}

proof fn lemma_line_offset_x(st: SettingsView, s: SettingsView)
    requires
        settings_storable(s),
    ensures
        ini_line_update(st, ini_text_lines(s)[5]) == (SettingsView { offset_x: s.offset_x, ..st }),
        ini_line_readable(ini_text_lines(s)[5]),
{
    reveal_keys();
    reveal_names();
    lemma_keys_plain();
    lemma_dec_int_ends(s.offset_x as int);
    text::lemma_parse_dec_i32(s.offset_x);
    lemma_written_line(st, "offset_x"@, text::dec_int(s.offset_x as int));
}

proof fn lemma_line_offset_y(st: SettingsView, s: SettingsView)
    requires
        settings_storable(s),
    ensures
        ini_line_update(st, ini_text_lines(s)[6]) == (SettingsView { offset_y: s.offset_y, ..st }),
        ini_line_readable(ini_text_lines(s)[6]),
{
    reveal_keys();
    reveal_names();
    lemma_keys_plain();
    lemma_dec_int_ends(s.offset_y as int);
    text::lemma_parse_dec_i32(s.offset_y);
    lemma_written_line(st, "offset_y"@, text::dec_int(s.offset_y as int));
}

proof fn lemma_line_glyph_shape(st: SettingsView, s: SettingsView)
    requires
        settings_storable(s),
    ensures
        ini_line_update(st, ini_text_lines(s)[7]) == (SettingsView { glyph_shape: s.glyph_shape, ..st }),
        ini_line_readable(ini_text_lines(s)[7]),
{
    reveal_keys();
    reveal_names();
    lemma_keys_plain();
    
    lemma_written_line(st, "glyph_shape"@, shape_text(s.glyph_shape));
}

proof fn lemma_line_device_override(st: SettingsView, s: SettingsView)
    requires
        settings_storable(s),
    ensures
        ini_line_update(st, ini_text_lines(s)[8]) == (SettingsView { device_override: s.device_override, ..st }),
        ini_line_readable(ini_text_lines(s)[8]),
{
    reveal_keys();
    reveal_names();
    lemma_keys_plain();
    
    lemma_written_line(st, "device_override"@, s.device_override);
}

proof fn lemma_line_hotkey_str(st: SettingsView, s: SettingsView)
    requires
        settings_storable(s),
    ensures
        ini_line_update(st, ini_text_lines(s)[9]) == (SettingsView { hotkey_str: s.hotkey_str, ..st }),
        ini_line_readable(ini_text_lines(s)[9]),
{
    reveal_keys();
    reveal_names();
    lemma_keys_plain();
    
    lemma_written_line(st, "hotkey_str"@, s.hotkey_str);
}

proof fn lemma_line_hotkey_mode(st: SettingsView, s: SettingsView)
    requires
        settings_storable(s),
    ensures
        ini_line_update(st, ini_text_lines(s)[10]) == (SettingsView { hotkey_mode: s.hotkey_mode, ..st }),
        ini_line_readable(ini_text_lines(s)[10]),
{
    reveal_keys();
    reveal_names();
    lemma_keys_plain();
    
    lemma_written_line(st, "hotkey_mode"@, mode_text(s.hotkey_mode));
}

proof fn lemma_line_color_muted(st: SettingsView, s: SettingsView)
    requires
        settings_storable(s),
    ensures
        ini_line_update(st, ini_text_lines(s)[11]) == (SettingsView { color_muted: s.color_muted, ..st }),
        ini_line_readable(ini_text_lines(s)[11]),
{
    reveal_keys();
    reveal_names();
    lemma_keys_plain();
    lemma_color_text_ends(s.color_muted);
    lemma_written_line(st, "color_muted"@, color::color_hex_text(s.color_muted));
}

proof fn lemma_line_opacity_muted(st: SettingsView, s: SettingsView)
    requires
        settings_storable(s),
    ensures
        ini_line_update(st, ini_text_lines(s)[12]) == (SettingsView { opacity_muted: s.opacity_muted, ..st }),
        ini_line_readable(ini_text_lines(s)[12]),
{
    reveal_keys();
    reveal_names();
    lemma_keys_plain();
    lemma_dec_int_ends(s.opacity_muted as int);
    text::lemma_parse_dec_unsigned(s.opacity_muted as nat);
    lemma_written_line(st, "opacity_muted"@, text::dec_int(s.opacity_muted as int));
}

proof fn lemma_line_color_unmuted(st: SettingsView, s: SettingsView)
    requires
        settings_storable(s),
    ensures
        ini_line_update(st, ini_text_lines(s)[13]) == (SettingsView { color_unmuted: s.color_unmuted, ..st }),
        ini_line_readable(ini_text_lines(s)[13]),
{
    reveal_keys();
    reveal_names();
    lemma_keys_plain();
    lemma_color_text_ends(s.color_unmuted);
    lemma_written_line(st, "color_unmuted"@, color::color_hex_text(s.color_unmuted));
}

proof fn lemma_line_opacity_unmuted(st: SettingsView, s: SettingsView)
    requires
        settings_storable(s),
    ensures
        ini_line_update(st, ini_text_lines(s)[14]) == (SettingsView { opacity_unmuted: s.opacity_unmuted, ..st }),
        ini_line_readable(ini_text_lines(s)[14]),
{
    reveal_keys();
    reveal_names();
    lemma_keys_plain();
    lemma_dec_int_ends(s.opacity_unmuted as int);
    text::lemma_parse_dec_unsigned(s.opacity_unmuted as nat);
    lemma_written_line(st, "opacity_unmuted"@, text::dec_int(s.opacity_unmuted as int));
}

proof fn lemma_line_color_error(st: SettingsView, s: SettingsView)
    requires
        settings_storable(s),
    ensures
        ini_line_update(st, ini_text_lines(s)[15]) == (SettingsView { color_error: s.color_error, ..st }),
        ini_line_readable(ini_text_lines(s)[15]),
{
    reveal_keys();
    reveal_names();
    lemma_keys_plain();
    lemma_color_text_ends(s.color_error);
    lemma_written_line(st, "color_error"@, color::color_hex_text(s.color_error));
}

proof fn lemma_line_opacity_error(st: SettingsView, s: SettingsView)
    requires
        settings_storable(s),
    ensures
        ini_line_update(st, ini_text_lines(s)[16]) == (SettingsView { opacity_error: s.opacity_error, ..st }),
        ini_line_readable(ini_text_lines(s)[16]),
{
    reveal_keys();
    reveal_names();
    lemma_keys_plain();
    lemma_dec_int_ends(s.opacity_error as int);
    text::lemma_parse_dec_unsigned(s.opacity_error as nat);
    lemma_written_line(st, "opacity_error"@, text::dec_int(s.opacity_error as int));
}

/// Reading the lines written for storable settings gives those settings
/// back, whatever the settings were before: what `mickey.ini` holds is what
/// was saved.
pub proof fn lemma_ini_round_trip(s: SettingsView, base: SettingsView)
    requires
        settings_storable(s),
    ensures
        forall|i: int|
            0 <= i < ini_text_lines(s).len() ==> ini_line_readable(#[trigger] ini_text_lines(s)[i]),
        ini_lines_update(base, ini_text_lines(s)) == s,
{
    let l = ini_text_lines(s);
    lemma_header_line(base);
    let st0 = base;
    let st1 = SettingsView { show_tray_icon: s.show_tray_icon, ..st0 };
    lemma_line_show_tray_icon(st0, s);
    let st2 = SettingsView { show_overlay: s.show_overlay, ..st1 };
    lemma_line_show_overlay(st1, s);
    let st3 = SettingsView { glyph_size: s.glyph_size, ..st2 };
    lemma_line_glyph_size(st2, s);
    let st4 = SettingsView { glyph_corner: s.glyph_corner, ..st3 };
    lemma_line_glyph_corner(st3, s);
    let st5 = SettingsView { offset_x: s.offset_x, ..st4 };
    lemma_line_offset_x(st4, s);
    let st6 = SettingsView { offset_y: s.offset_y, ..st5 };
    lemma_line_offset_y(st5, s);
    let st7 = SettingsView { glyph_shape: s.glyph_shape, ..st6 };
    lemma_line_glyph_shape(st6, s);
    let st8 = SettingsView { device_override: s.device_override, ..st7 };
    lemma_line_device_override(st7, s);
    let st9 = SettingsView { hotkey_str: s.hotkey_str, ..st8 };
    lemma_line_hotkey_str(st8, s);
    let st10 = SettingsView { hotkey_mode: s.hotkey_mode, ..st9 };
    lemma_line_hotkey_mode(st9, s);
    let st11 = SettingsView { color_muted: s.color_muted, ..st10 };
    lemma_line_color_muted(st10, s);
    let st12 = SettingsView { opacity_muted: s.opacity_muted, ..st11 };
    lemma_line_opacity_muted(st11, s);
    let st13 = SettingsView { color_unmuted: s.color_unmuted, ..st12 };
    lemma_line_color_unmuted(st12, s);
    let st14 = SettingsView { opacity_unmuted: s.opacity_unmuted, ..st13 };
    lemma_line_opacity_unmuted(st13, s);
    let st15 = SettingsView { color_error: s.color_error, ..st14 };
    lemma_line_color_error(st14, s);
    let st16 = SettingsView { opacity_error: s.opacity_error, ..st15 };
    lemma_line_opacity_error(st15, s);
    assert(st16 == s);
    let states = seq![st0, st0, st1, st2, st3, st4, st5, st6, st7, st8, st9, st10, st11, st12,
        st13, st14, st15, st16];
    assert forall|k: int| 0 <= k < l.len() implies ini_line_update(states[k], #[trigger] l[k])
        == states[k + 1] && ini_line_readable(l[k]) by {
        if k == 0 {
            assert(l[0] == "[Settings]"@);
        }
    }
    lemma_lines_chain(states, l);
}

proof fn lemma_lines_chain(states: Seq<SettingsView>, lines: Seq<Seq<char>>)
    requires
        states.len() == lines.len() + 1,
        forall|k: int|
            0 <= k < lines.len() ==> ini_line_update(states[k], #[trigger] lines[k]) == states[k
                + 1],
    ensures
        ini_lines_update(states[0], lines) == states.last(),
    decreases lines.len(),
{
    if lines.len() > 0 {
        lemma_lines_chain(states.drop_last(), lines.drop_last());
    }
}

// ---------------------------------------------------------------------
// What the indicator shows
// ---------------------------------------------------------------------

pub open spec fn color_for_spec(s: SettingsView, m: MuteState) -> [u8; 3] {
    match m {
        MuteState::Muted => s.color_muted,
        MuteState::Unmuted => s.color_unmuted,
        MuteState::Error => s.color_error,
    }
}

pub open spec fn opacity_for_spec(s: SettingsView, m: MuteState) -> u8 {
    match m {
        MuteState::Muted => s.opacity_muted,
        MuteState::Unmuted => s.opacity_unmuted,
        MuteState::Error => s.opacity_error,
    }
}

impl Settings {
    /// The colour shown for a mute state.
    pub fn color_for(&self, m: MuteState) -> (c: [u8; 3])
        ensures
            c == color_for_spec(self@, m),
    {
        match m {
            MuteState::Muted => self.color_muted,
            MuteState::Unmuted => self.color_unmuted,
            MuteState::Error => self.color_error,
        }
    }

    /// The opacity in percent shown for a mute state.
    pub fn opacity_for(&self, m: MuteState) -> (o: u8)
        ensures
            o == opacity_for_spec(self@, m),
    {
        match m {
            MuteState::Muted => self.opacity_muted,
            MuteState::Unmuted => self.opacity_unmuted,
            MuteState::Error => self.opacity_error,
        }
    }
}

/// The horizontal position of the indicator: the offset from the left edge
/// for the left corners (0 and 2), from the right edge otherwise.
pub open spec fn overlay_x(corner: u32, offset_x: int, size: int, screen_w: int) -> int {
    if corner == 0 || corner == 2 {
        offset_x
    } else {
        screen_w - size - offset_x
    }
}

/// The vertical position of the indicator: the offset from the top edge for
/// the top corners (0 and 1), from the bottom edge otherwise.
pub open spec fn overlay_y(corner: u32, offset_y: int, size: int, screen_h: int) -> int {
    if corner == 0 || corner == 1 {
        offset_y
    } else {
        screen_h - size - offset_y
    }
}

pub open spec fn fits_i32(v: int) -> bool {
    i32::MIN <= v <= i32::MAX
}

/// The top-left corner of the indicator on a primary screen of
/// `screen_w` by `screen_h` pixels.
pub fn overlay_position(
    corner: u32,
    offset_x: i32,
    offset_y: i32,
    size: i32,
    screen_w: i32,
    screen_h: i32,
) -> (r: (i32, i32))
    requires
        !(corner == 0 || corner == 2) ==> fits_i32(screen_w - size) && fits_i32(
            screen_w - size - offset_x,
        ),
        !(corner == 0 || corner == 1) ==> fits_i32(screen_h - size) && fits_i32(
            screen_h - size - offset_y,
        ),
    ensures
        r.0 == overlay_x(corner, offset_x as int, size as int, screen_w as int),
        r.1 == overlay_y(corner, offset_y as int, size as int, screen_h as int),
{
    let x = if corner == 0 || corner == 2 {
        offset_x
    } else {
        screen_w - size - offset_x
    };
    let y = if corner == 0 || corner == 1 {
        offset_y
    } else {
        screen_h - size - offset_y
    };
    (x, y)
}

fn same_color(a: [u8; 3], b: [u8; 3]) -> (r: bool)
    ensures
        r == (a == b),
{
    let r = a[0] == b[0] && a[1] == b[1] && a[2] == b[2];
    if r {
        assert(a =~= b);
    }
    r
}

/// Whether the settings differ in anything the settings window edits
/// (closing the window asks before discarding such changes).
pub fn settings_differ(a: &Settings, b: &Settings) -> (r: bool)
    ensures
        r == (a@ != b@),
{
    let same = a.show_tray_icon == b.show_tray_icon && a.show_overlay == b.show_overlay
        && a.glyph_size == b.glyph_size && a.glyph_corner == b.glyph_corner && a.offset_x
        == b.offset_x && a.offset_y == b.offset_y && a.glyph_shape == b.glyph_shape
        && a.hotkey_str == b.hotkey_str && a.hotkey_mode == b.hotkey_mode && same_color(
        a.color_muted,
        b.color_muted,
    ) && same_color(a.color_unmuted, b.color_unmuted) && same_color(a.color_error, b.color_error)
        && a.opacity_muted == b.opacity_muted && a.opacity_unmuted == b.opacity_unmuted
        && a.opacity_error == b.opacity_error && a.device_override == b.device_override;
    !same
}

// ---------------------------------------------------------------------
// The settings window's fields
// ---------------------------------------------------------------------

/// The text of a field: the buffer's text without NUL characters at either
/// end, then without white space at either end.
pub open spec fn field_text(s: Seq<char>) -> Seq<char> {
    text::trim_ws(text::trim_by(s, CharClass::Nul))
}

fn field_chars(s: &str) -> (r: Vec<char>)
    ensures
        r@ == field_text(s@),
{
    let v = text::chars_of(s);
    let n = text::trim_chars(v.as_slice(), CharClass::Nul);
    text::trim_chars(n.as_slice(), CharClass::WhiteSpace)
}

/// The size field: a number, 32 when unreadable, kept within 1 to 64.
pub open spec fn size_field_spec(s: Seq<char>) -> i32 {
    let n = match text::parse_i32_spec(field_text(s)) {
        Some(n) => n as int,
        None => 32,
    };
    clamp(n, 1, 64) as i32
}

pub fn size_from_field(s: &str) -> (r: i32)
    ensures
        r == size_field_spec(s@),
{
    let t = field_chars(s);
    let n = match text::parse_i32(t.as_slice()) {
        Some(n) => n,
        None => 32,
    };
    clamp_i32(n, 1, 64)
}

/// An offset field: 0 when empty or a lone `-`, else a number, 0 when
/// unreadable, kept within -9999 to 9999.
pub open spec fn offset_field_spec(s: Seq<char>) -> i32 {
    let t = field_text(s);
    if t.len() == 0 || t == seq!['-'] {
        0
    } else {
        let n = match text::parse_i32_spec(t) {
            Some(n) => n as int,
            None => 0,
        };
        clamp(n, -9999, 9999) as i32
    }
}

pub fn offset_from_field(s: &str) -> (r: i32)
    ensures
        r == offset_field_spec(s@),
{
    let t = field_chars(s);
    if t.len() == 0 || (t.len() == 1 && t[0] == '-') {
        assert(t.len() == 1 ==> t@ =~= seq![t@[0]]);
        return 0;
    }
    assert(t@ != seq!['-']);
    let n = match text::parse_i32(t.as_slice()) {
        Some(n) => n,
        None => 0,
    };
    clamp_i32(n, -9999, 9999)
}

/// An opacity field: a byte-sized number, 100 when unreadable, at most 100.
pub open spec fn opacity_field_spec(s: Seq<char>) -> u8 {
    match text::parse_u8_spec(field_text(s)) {
        Some(n) => if n > 100 {
            100
        } else {
            n
        },
        None => 100,
    }
}

pub fn opacity_from_field(s: &str) -> (r: u8)
    ensures
        r == opacity_field_spec(s@),
{
    let t = field_chars(s);
    match text::parse_u8(t.as_slice()) {
        Some(n) => if n > 100 {
            100
        } else {
            n
        },
        None => 100,
    }
}

/// The slider position an opacity field sets: a number, 100 when
/// unreadable, at most 100.
pub open spec fn slider_field_spec(s: Seq<char>) -> u32 {
    match text::parse_u32_spec(field_text(s)) {
        Some(n) => if n > 100 {
            100
        } else {
            n
        },
        None => 100,
    }
}

pub fn slider_from_field(s: &str) -> (r: u32)
    ensures
        r == slider_field_spec(s@),
{
    let t = field_chars(s);
    match text::parse_u32(t.as_slice()) {
        Some(n) => if n > 100 {
            100
        } else {
            n
        },
        None => 100,
    }
}

/// The hotkey that saving takes from its display field.
pub fn hotkey_from_field(s: &str) -> (r: String)
    ensures
        r@ == field_text(s@),
{
    let t = field_chars(s);
    text::string_of(t.as_slice())
}

/// The text a slider position puts in its opacity field.
pub fn slider_text(pos: u32) -> (r: String)
    ensures
        r@ == text::dec_int(pos as int),
{
    let mut v: Vec<char> = Vec::new();
    text::push_u64(&mut v, pos as u64);
    assert(v@ =~= text::dec_int(pos as int));
    text::string_of(v.as_slice())
}

/// The device id of an entry of the device list: entry 0 is the default
/// device (empty id), entry `k` the `k`-th listed device; an entry past the
/// list is the default device too.
pub open spec fn device_for_entry_spec(ids: Seq<Seq<char>>, sel: int) -> Seq<char> {
    if sel == 0 || sel - 1 >= ids.len() {
        Seq::empty()
    } else {
        ids[sel - 1]
    }
}

pub fn device_for_entry(ids: &Vec<String>, sel: usize) -> (r: String)
    ensures
        r@ == device_for_entry_spec(lines_view(ids@), sel as int),
{
    if sel == 0 || sel - 1 >= ids.len() {
        String::new()
    } else {
        ids[sel - 1].clone()
    }
}

/// The entry selected when the settings window opens: one past the last
/// listed device whose id is the current one, else the default entry 0.
pub open spec fn entry_for_device_spec(ids: Seq<Seq<char>>, current: Seq<char>) -> int
    decreases ids.len(),
{
    if ids.len() == 0 {
        0
    } else if ids.last() == current {
        ids.len() as int
    } else {
        entry_for_device_spec(ids.drop_last(), current)
    }
}

pub fn entry_for_device(ids: &Vec<String>, current: &str) -> (r: usize)
    ensures
        r as int == entry_for_device_spec(lines_view(ids@), current@),
{
    let mut sel: usize = 0;
    let mut i: usize = 0;
    let ghost v = lines_view(ids@);
    while i < ids.len()
        invariant
            i <= ids@.len(),
            v == lines_view(ids@),
            sel as int == entry_for_device_spec(v.take(i as int), current@),
        decreases ids@.len() - i,
    {
        assert(v.take(i + 1).drop_last() =~= v.take(i as int));
        if text::chars_eq_str(text::chars_of(ids[i].as_str()).as_slice(), current) {
            sel = i + 1;
        }
        i = i + 1;
    }
    assert(v.take(ids@.len() as int) =~= v);
    sel
}

proof fn lemma_entry_for_device(ids: Seq<Seq<char>>, current: Seq<char>)
    ensures
        ({
            let e = entry_for_device_spec(ids, current);
            &&& 0 <= e <= ids.len()
            &&& e > 0 ==> ids[e - 1] == current
            &&& e == 0 ==> forall|i: int| 0 <= i < ids.len() ==> ids[i] != current
        }),
    decreases ids.len(),
{
    if ids.len() > 0 {
        lemma_entry_for_device(ids.drop_last(), current);
        let e = entry_for_device_spec(ids, current);
        if ids.last() != current {
            assert forall|i: int| 0 <= i < ids.len() && e == 0 implies ids[i] != current by {
                if i < ids.len() - 1 {
                    assert(ids[i] == ids.drop_last()[i]);
                }
            }
        }
    }
}

/// The device list of the settings window gives back the current device:
/// the entry selected when the window opens stands for the device in use,
/// provided that device is listed or is the default one.
pub proof fn lemma_device_entry_round_trip(ids: Seq<Seq<char>>, current: Seq<char>)
    requires
        current.len() == 0 || ids.contains(current),
    ensures
        device_for_entry_spec(ids, entry_for_device_spec(ids, current)) == current,
{
    lemma_entry_for_device(ids, current);
}

/// Whether the signed offset fields take a typed character: digits and
/// backspace always; `-` only at the start, and only where the text is not
/// already negative or is wholly selected. `text_bytes` is the text's length
/// in bytes.
pub open spec fn offset_key_spec(
    ch: u8,
    sel_start: int,
    sel_end: int,
    text: Seq<char>,
) -> bool {
    let t = text::trim_by(text, CharClass::Nul);
    let len = text::utf8_len(t);
    let negative = t.len() > 0 && t[0] == '-';
    let whole = sel_start == 0 && sel_end >= len && len > 0;
    ||| 48 <= ch <= 57
    ||| ch == 8
    ||| ch == 45 && sel_start == 0 && (!negative || whole)
}

/// The offset fields' filter on typed characters (`WM_CHAR`), given the
/// selection and the field's text.
pub fn offset_field_accepts(ch: u8, sel_start: usize, sel_end: usize, field: &str) -> (r: bool)
    ensures
        r == offset_key_spec(ch, sel_start as int, sel_end as int, field@),
{
    let is_digit = 48 <= ch && ch <= 57;
    let is_backspace = ch == 8;
    let is_minus = ch == 45;
    if !is_digit && !is_backspace && !is_minus {
        return false;
    }
    if is_minus {
        let v = text::chars_of(field);
        let t = text::trim_chars(v.as_slice(), CharClass::Nul);
        let len = text::utf8_byte_len(t.as_slice());
        let negative = t.len() > 0 && t[0] == '-';
        let whole = sel_start == 0 && sel_end as u128 >= len && len > 0;
        if sel_start != 0 || (negative && !whole) {
            return false;
        }
    }
    true
}

/// The range of each setting.
pub open spec fn settings_in_range(s: SettingsView) -> bool {
    &&& 1 <= s.glyph_size <= 64
    &&& s.glyph_corner <= 3
    &&& -9999 <= s.offset_x <= 9999
    &&& -9999 <= s.offset_y <= 9999
    &&& s.glyph_shape <= 2
    &&& s.hotkey_mode <= 2
    &&& s.opacity_muted <= 100
    &&& s.opacity_unmuted <= 100
    &&& s.opacity_error <= 100
}

/// Whatever a line of the settings file holds, reading it keeps every
/// setting within its range.
pub proof fn lemma_line_keeps_range(st: SettingsView, line: Seq<char>)
    requires
        settings_in_range(st),
    ensures
        settings_in_range(ini_line_update(st, line)),
{
    reveal(ini_line_update);
}

/// Whatever the settings file holds, the settings read from it are within
/// their ranges, starting from settings within them (such as the defaults).
pub proof fn lemma_file_keeps_range(st: SettingsView, lines: Seq<Seq<char>>)
    requires
        settings_in_range(st),
    ensures
        settings_in_range(ini_lines_update(st, lines)),
    decreases lines.len(),
{
    if lines.len() > 0 {
        lemma_file_keeps_range(st, lines.drop_last());
        lemma_line_keeps_range(ini_lines_update(st, lines.drop_last()), lines.last());
    }
}

/// The settings window's fields always give values within their ranges.
pub proof fn lemma_fields_in_range(s: Seq<char>)
    ensures
        1 <= size_field_spec(s) <= 64,
        -9999 <= offset_field_spec(s) <= 9999,
        opacity_field_spec(s) <= 100,
        slider_field_spec(s) <= 100,
{
}


/// Each documented corner name reads as its own corner, and so does the
/// corner's number: `top-left` is 0, `top-right` 1, `bottom-left` 2 and
/// `bottom-right` 3. Nothing else changes.
pub proof fn lemma_corner_names_read(st: SettingsView)
    ensures
        ini_line_update(st, key_line("glyph_corner"@, "top-left"@)) == (SettingsView { glyph_corner: 0, ..st }),
        ini_line_update(st, key_line("glyph_corner"@, "top-right"@)) == (SettingsView { glyph_corner: 1, ..st }),
        ini_line_update(st, key_line("glyph_corner"@, "bottom-left"@)) == (SettingsView { glyph_corner: 2, ..st }),
        ini_line_update(st, key_line("glyph_corner"@, "bottom-right"@)) == (SettingsView { glyph_corner: 3, ..st }),
        ini_line_update(st, key_line("glyph_corner"@, "0"@)) == (SettingsView { glyph_corner: 0, ..st }),
        ini_line_update(st, key_line("glyph_corner"@, "1"@)) == (SettingsView { glyph_corner: 1, ..st }),
        ini_line_update(st, key_line("glyph_corner"@, "2"@)) == (SettingsView { glyph_corner: 2, ..st }),
        ini_line_update(st, key_line("glyph_corner"@, "3"@)) == (SettingsView { glyph_corner: 3, ..st }),
{
    reveal_keys();
    reveal_names();
    lemma_keys_plain();
    lemma_written_line(st, "glyph_corner"@, "top-left"@);
    lemma_written_line(st, "glyph_corner"@, "top-right"@);
    lemma_written_line(st, "glyph_corner"@, "bottom-left"@);
    lemma_written_line(st, "glyph_corner"@, "bottom-right"@);
    lemma_written_line(st, "glyph_corner"@, "0"@);
    lemma_written_line(st, "glyph_corner"@, "1"@);
    lemma_written_line(st, "glyph_corner"@, "2"@);
    lemma_written_line(st, "glyph_corner"@, "3"@);
}

/// Each documented shape name reads as its own shape, and so does the
/// shape's number: `icon` is 0, `circle` 1 and `square` 2. Nothing else
/// changes.
pub proof fn lemma_shape_names_read(st: SettingsView)
    ensures
        ini_line_update(st, key_line("glyph_shape"@, "icon"@)) == (SettingsView { glyph_shape: 0, ..st }),
        ini_line_update(st, key_line("glyph_shape"@, "circle"@)) == (SettingsView { glyph_shape: 1, ..st }),
        ini_line_update(st, key_line("glyph_shape"@, "square"@)) == (SettingsView { glyph_shape: 2, ..st }),
        ini_line_update(st, key_line("glyph_shape"@, "0"@)) == (SettingsView { glyph_shape: 0, ..st }),
        ini_line_update(st, key_line("glyph_shape"@, "1"@)) == (SettingsView { glyph_shape: 1, ..st }),
        ini_line_update(st, key_line("glyph_shape"@, "2"@)) == (SettingsView { glyph_shape: 2, ..st }),
{
    reveal_keys();
    reveal_names();
    lemma_keys_plain();
    lemma_written_line(st, "glyph_shape"@, "icon"@);
    lemma_written_line(st, "glyph_shape"@, "circle"@);
    lemma_written_line(st, "glyph_shape"@, "square"@);
    lemma_written_line(st, "glyph_shape"@, "0"@);
    lemma_written_line(st, "glyph_shape"@, "1"@);
    lemma_written_line(st, "glyph_shape"@, "2"@);
}

/// Each documented hotkey mode name reads as its own mode, and so does the
/// mode's number: `toggle` is 0, `ptt` (push-to-talk) 1 and `ptm`
/// (push-to-mute) 2. Nothing else changes.
pub proof fn lemma_mode_names_read(st: SettingsView)
    ensures
        ini_line_update(st, key_line("hotkey_mode"@, "toggle"@)) == (SettingsView { hotkey_mode: 0, ..st }),
        ini_line_update(st, key_line("hotkey_mode"@, "ptt"@)) == (SettingsView { hotkey_mode: 1, ..st }),
        ini_line_update(st, key_line("hotkey_mode"@, "ptm"@)) == (SettingsView { hotkey_mode: 2, ..st }),
        ini_line_update(st, key_line("hotkey_mode"@, "0"@)) == (SettingsView { hotkey_mode: 0, ..st }),
        ini_line_update(st, key_line("hotkey_mode"@, "1"@)) == (SettingsView { hotkey_mode: 1, ..st }),
        ini_line_update(st, key_line("hotkey_mode"@, "2"@)) == (SettingsView { hotkey_mode: 2, ..st }),
{
    reveal_keys();
    reveal_names();
    lemma_keys_plain();
    lemma_written_line(st, "hotkey_mode"@, "toggle"@);
    lemma_written_line(st, "hotkey_mode"@, "ptt"@);
    lemma_written_line(st, "hotkey_mode"@, "ptm"@);
    lemma_written_line(st, "hotkey_mode"@, "0"@);
    lemma_written_line(st, "hotkey_mode"@, "1"@);
    lemma_written_line(st, "hotkey_mode"@, "2"@);
}

/// The settings file writes each corner, shape and hotkey mode under its
/// documented name.
pub proof fn lemma_names_written(s: SettingsView)
    ensures
        s.glyph_corner == 0 ==> ini_text_lines(s)[4] == key_line("glyph_corner"@, "top-left"@),
        s.glyph_corner == 1 ==> ini_text_lines(s)[4] == key_line("glyph_corner"@, "top-right"@),
        s.glyph_corner == 2 ==> ini_text_lines(s)[4] == key_line("glyph_corner"@, "bottom-left"@),
        s.glyph_corner == 3 ==> ini_text_lines(s)[4] == key_line("glyph_corner"@, "bottom-right"@),
        s.glyph_shape == 0 ==> ini_text_lines(s)[7] == key_line("glyph_shape"@, "icon"@),
        s.glyph_shape == 1 ==> ini_text_lines(s)[7] == key_line("glyph_shape"@, "circle"@),
        s.glyph_shape == 2 ==> ini_text_lines(s)[7] == key_line("glyph_shape"@, "square"@),
        s.hotkey_mode == 0 ==> ini_text_lines(s)[10] == key_line("hotkey_mode"@, "toggle"@),
        s.hotkey_mode == 1 ==> ini_text_lines(s)[10] == key_line("hotkey_mode"@, "ptt"@),
        s.hotkey_mode == 2 ==> ini_text_lines(s)[10] == key_line("hotkey_mode"@, "ptm"@),
{
}

/// `true` and `false` switch the tray icon and the overlay on and off.
pub proof fn lemma_switches_read(st: SettingsView)
    ensures
        ini_line_update(st, key_line("show_tray_icon"@, "true"@)) == (SettingsView { show_tray_icon: true, ..st }),
        ini_line_update(st, key_line("show_tray_icon"@, "false"@)) == (SettingsView { show_tray_icon: false, ..st }),
        ini_line_update(st, key_line("show_overlay"@, "true"@)) == (SettingsView { show_overlay: true, ..st }),
        ini_line_update(st, key_line("show_overlay"@, "false"@)) == (SettingsView { show_overlay: false, ..st }),
{
    reveal_keys();
    lemma_keys_plain();
    reveal_strlit("true");
    reveal_strlit("false");
    assert("true"@ =~= seq!['t', 'r', 'u', 'e']);
    assert("false"@ =~= seq!['f', 'a', 'l', 's', 'e']);
    lemma_written_line(st, "show_tray_icon"@, "true"@);
    lemma_written_line(st, "show_tray_icon"@, "false"@);
    lemma_written_line(st, "show_overlay"@, "true"@);
    lemma_written_line(st, "show_overlay"@, "false"@);
}

/// A number read for the size, an offset or an opacity is kept where it lies
/// in the setting's range and moved to the nearest end of the range where it
/// does not: size 1 to 64, offsets -9999 to 9999, opacities 0 to 100.
pub proof fn lemma_numbers_read_clamped(st: SettingsView, n: i32, o: u8)
    ensures
        ini_line_update(st, key_line("glyph_size"@, text::dec_int(n as int))).glyph_size == (if n < 1 {
            1
        } else if n > 64 {
            64
        } else {
            n
        }),
        ini_line_update(st, key_line("offset_x"@, text::dec_int(n as int))).offset_x == (if n < -9999 {
            -9999i32
        } else if n > 9999 {
            9999i32
        } else {
            n
        }),
        ini_line_update(st, key_line("offset_y"@, text::dec_int(n as int))).offset_y == (if n < -9999 {
            -9999i32
        } else if n > 9999 {
            9999i32
        } else {
            n
        }),
        ini_line_update(st, key_line("opacity_muted"@, text::dec_int(o as int))).opacity_muted == (if o
            > 100 {
            100
        } else {
            o
        }),
        ini_line_update(st, key_line("opacity_unmuted"@, text::dec_int(o as int))).opacity_unmuted == (
        if o > 100 {
            100
        } else {
            o
        }),
        ini_line_update(st, key_line("opacity_error"@, text::dec_int(o as int))).opacity_error == (if o
            > 100 {
            100
        } else {
            o
        }),
{
    reveal_keys();
    lemma_keys_plain();
    lemma_dec_int_ends(n as int);
    lemma_dec_int_ends(o as int);
    text::lemma_parse_dec_i32(n);
    text::lemma_parse_dec_unsigned(o as nat);
    lemma_written_line(st, "glyph_size"@, text::dec_int(n as int));
    lemma_written_line(st, "offset_x"@, text::dec_int(n as int));
    lemma_written_line(st, "offset_y"@, text::dec_int(n as int));
    lemma_written_line(st, "opacity_muted"@, text::dec_int(o as int));
    lemma_written_line(st, "opacity_unmuted"@, text::dec_int(o as int));
    lemma_written_line(st, "opacity_error"@, text::dec_int(o as int));
}

/// Each mute state shows its own colour and its own opacity.
pub proof fn lemma_state_colours(s: SettingsView)
    ensures
        color_for_spec(s, MuteState::Muted) == s.color_muted,
        color_for_spec(s, MuteState::Unmuted) == s.color_unmuted,
        color_for_spec(s, MuteState::Error) == s.color_error,
        opacity_for_spec(s, MuteState::Muted) == s.opacity_muted,
        opacity_for_spec(s, MuteState::Unmuted) == s.opacity_unmuted,
        opacity_for_spec(s, MuteState::Error) == s.opacity_error,
{
}

/// The indicator sits the offsets in from its corner of the screen:
/// top-left (0) measures both offsets from the left and top edges,
/// top-right (1) from the right and top, bottom-left (2) from the left and
/// bottom, bottom-right (3) from the right and bottom; the indicator's size
/// is taken off on the right and bottom.
pub proof fn lemma_overlay_corners(ox: int, oy: int, size: int, w: int, h: int)
    ensures
        overlay_x(0, ox, size, w) == ox,
        overlay_y(0, oy, size, h) == oy,
        overlay_x(1, ox, size, w) == w - size - ox,
        overlay_y(1, oy, size, h) == oy,
        overlay_x(2, ox, size, w) == ox,
        overlay_y(2, oy, size, h) == h - size - oy,
        overlay_x(3, ox, size, w) == w - size - ox,
        overlay_y(3, oy, size, h) == h - size - oy,
{
}

/// The device list: entry 0 is the default device (empty id), entry `k` the
/// `k`-th listed device, an entry past the list the default device. The
/// entry picked for the current device is within the list, names that
/// device where it is not 0, and is 0 where the device is not listed.
pub proof fn lemma_device_entries(ids: Seq<Seq<char>>, k: int, current: Seq<char>)
    ensures
        device_for_entry_spec(ids, 0) == Seq::<char>::empty(),
        1 <= k <= ids.len() ==> device_for_entry_spec(ids, k) == ids[k - 1],
        k > ids.len() ==> device_for_entry_spec(ids, k) == Seq::<char>::empty(),
        0 <= entry_for_device_spec(ids, current) <= ids.len(),
        entry_for_device_spec(ids, current) > 0 ==> ids[entry_for_device_spec(ids, current) - 1]
            == current,
        !ids.contains(current) ==> entry_for_device_spec(ids, current) == 0,
{
    lemma_entry_for_device(ids, current);
    let e = entry_for_device_spec(ids, current);
    if e > 0 {
        assert(ids[e - 1] == current);
    }
}

proof fn lemma_dec_int_field(n: int)
    ensures
        field_text(text::dec_int(n)) == text::dec_int(n),
        text::dec_int(n) != seq!['-'],
        text::dec_int(n).len() > 0,
{
    let m: nat = if n < 0 {
        (-n) as nat
    } else {
        n as nat
    };
    text::lemma_dec_nat_digits(m);
    lemma_dec_int_ends(n);
    let d = text::dec_int(n);
    let dn = text::dec_nat(m);
    assert(text::is_digit(dn[0]) && text::is_digit(dn.last()));
    assert(d.last() == dn.last());
    assert(d[0] == '-' || d[0] == dn[0]);
    text::lemma_trim_noop(d, CharClass::Nul);
    text::lemma_trim_noop(d, CharClass::WhiteSpace);
    assert(d.last() != '-');
}

/// A number within a field's range, as the field shows it, reads as itself;
/// an empty field reads as the field's default: size 32, offset 0, opacity
/// 100. The slider's text for a position up to 100 reads back as that
/// position.
pub proof fn lemma_fields_read(n: i32, o: u8)
    ensures
        1 <= n <= 64 ==> size_field_spec(text::dec_int(n as int)) == n,
        -9999 <= n <= 9999 ==> offset_field_spec(text::dec_int(n as int)) == n,
        o <= 100 ==> opacity_field_spec(text::dec_int(o as int)) == o,
        o <= 100 ==> slider_field_spec(text::dec_int(o as int)) == o as u32,
        size_field_spec(Seq::empty()) == 32,
        offset_field_spec(Seq::empty()) == 0,
        opacity_field_spec(Seq::empty()) == 100,
        slider_field_spec(Seq::empty()) == 100,
{
    lemma_dec_int_field(n as int);
    lemma_dec_int_field(o as int);
    text::lemma_parse_dec_i32(n);
    text::lemma_parse_dec_unsigned(o as nat);
    let e = Seq::<char>::empty();
    assert(text::trim_start_by(e, CharClass::Nul) == e);
    assert(text::trim_end_by(e, CharClass::Nul) == e);
    assert(text::trim_start_by(e, CharClass::WhiteSpace) == e);
    assert(text::trim_end_by(e, CharClass::WhiteSpace) == e);
    assert(field_text(e) == e);
}

} // verus!
