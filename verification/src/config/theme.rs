//! Colors of the interface: each setting names a color (`dark_gray`,
//! `ansi:N`, `#rrggbb`, ...), read by `parse_color`.

use vstd::prelude::*;

use crate::text::{
    ascii_lower_seq, chars_of, chars_eq, is_whitespace_spec, lemma_lower_unchanged, lemma_trim_unpadded,
    parse_unsigned, parse_unsigned_spec, strip_prefix, to_ascii_lowercase, trim, trim_spec,
};

verus! {

#[derive(Debug, Clone)]
pub struct ThemeConfig {
    pub foreground: String,
    pub background: String,
    pub muted: String,
    pub accent: String,
    pub border: String,
    pub focused_border: String,
    pub selected_border: String,
    pub selected_foreground: String,
    pub selected_background: String,
    pub hover_foreground: String,
    pub hover_background: String,
    pub hover_selected_foreground: String,
    pub hover_selected_background: String,
    pub bookmark_hover_foreground: String,
    pub bookmark_hover_background: String,
    pub bookmark_page_color: String,
    pub bookmark_hover_page_color: String,
    pub bookmark_expanded_color: String,
    pub bookmark_collapsed_color: String,
    pub bookmark_leaf_color: String,
    pub error: String,
    pub which_key_columns: u16,
    pub which_key_background: String,
    pub which_key_foreground: String,
    pub which_key_key: String,
    pub which_key_rest: String,
    pub which_key_description: String,
    pub which_key_separator: String,
    pub which_key_separator_color: String,
}

fn owned(text: &str) -> (out: String)
    ensures
        out@ == text@,
{
    text.to_owned()
}

impl Default for ThemeConfig {
    fn default() -> (theme: Self)
        ensures
            theme.foreground@ == "white"@,
            theme.background@ == "reset"@,
            theme.muted@ == "dark_gray"@,
            theme.accent@ == "cyan"@,
            theme.border@ == "dark_gray"@,
            theme.focused_border@ == "yellow"@,
            theme.selected_border@ == "green"@,
            theme.selected_foreground@ == "auto"@,
            theme.selected_background@ == "white"@,
            theme.hover_foreground@ == "auto"@,
            theme.hover_background@ == "cyan"@,
            theme.hover_selected_foreground@ == "auto"@,
            theme.hover_selected_background@ == "green"@,
            theme.bookmark_hover_foreground@ == "white"@,
            theme.bookmark_hover_background@ == "blue"@,
            theme.bookmark_page_color@ == "dark_gray"@,
            theme.bookmark_hover_page_color@ == "white"@,
            theme.bookmark_expanded_color@ == "white"@,
            theme.bookmark_collapsed_color@ == "yellow"@,
            theme.bookmark_leaf_color@ == "dark_gray"@,
            theme.error@ == "red"@,
            theme.which_key_columns == 3,
            theme.which_key_background@ == "black"@,
            theme.which_key_foreground@ == "white"@,
            theme.which_key_key@ == "light_cyan"@,
            theme.which_key_rest@ == "dark_gray"@,
            theme.which_key_description@ == "light_magenta"@,
            theme.which_key_separator@ == " -> "@,
            theme.which_key_separator_color@ == "dark_gray"@,
    {
        ThemeConfig {
            foreground: owned("white"),
            background: owned("reset"),
            muted: owned("dark_gray"),
            accent: owned("cyan"),
            border: owned("dark_gray"),
            focused_border: owned("yellow"),
            selected_border: owned("green"),
            selected_foreground: owned("auto"),
            selected_background: owned("white"),
            hover_foreground: owned("auto"),
            hover_background: owned("cyan"),
            hover_selected_foreground: owned("auto"),
            hover_selected_background: owned("green"),
            bookmark_hover_foreground: owned("white"),
            bookmark_hover_background: owned("blue"),
            bookmark_page_color: owned("dark_gray"),
            bookmark_hover_page_color: owned("white"),
            bookmark_expanded_color: owned("white"),
            bookmark_collapsed_color: owned("yellow"),
            bookmark_leaf_color: owned("dark_gray"),
            error: owned("red"),
            which_key_columns: 3,
            which_key_background: owned("black"),
            which_key_foreground: owned("white"),
            which_key_key: owned("light_cyan"),
            which_key_rest: owned("dark_gray"),
            which_key_description: owned("light_magenta"),
            which_key_separator: owned(" -> "),
            which_key_separator_color: owned("dark_gray"),
        }
    }
}

/// A terminal color.
#[derive(Debug, Clone, Copy, PartialEq, Eq)]
pub enum ThemeColor {
    Reset,
    Black,
    Red,
    Green,
    Yellow,
    Blue,
    Magenta,
    Cyan,
    Gray,
    DarkGray,
    LightRed,
    LightGreen,
    LightYellow,
    LightBlue,
    LightMagenta,
    LightCyan,
    White,
    Indexed(u8),
    Rgb(u8, u8, u8),
}

/// Bytes of `c` in UTF-8.
pub open spec fn utf8_width(c: char) -> nat {
    let v = c as u32;
    if v < 0x80 {
        1
    } else if v < 0x800 {
        2
    } else if v < 0x10000 {
        3
    } else {
        4
    }
}

/// Bytes of `s` in UTF-8.
pub open spec fn utf8_len(s: Seq<char>) -> nat
    decreases s.len(),
{
    if s.len() == 0 {
        0
    } else {
        utf8_len(s.drop_last()) + utf8_width(s.last())
    }
}

/// The value of hexadecimal digit `c`, if it is one.
pub open spec fn hex_digit(c: char) -> Option<nat> {
    if '0' <= c && c <= '9' {
        Some((c as u32 - '0' as u32) as nat)
    } else if 'a' <= c && c <= 'f' {
        Some((c as u32 - 'a' as u32 + 10) as nat)
    } else if 'A' <= c && c <= 'F' {
        Some((c as u32 - 'A' as u32 + 10) as nat)
    } else {
        None
    }
}

/// Two characters read as `u8::from_str_radix(_, 16)` reads them: two hex
/// digits, or `+` and one digit.
pub open spec fn hex_byte(a: char, b: char) -> Option<u8> {
    if a == '+' {
        match hex_digit(b) {
            Some(d) => Some(d as u8),
            None => None,
        }
    } else {
        match (hex_digit(a), hex_digit(b)) {
            (Some(x), Some(y)) => Some((x * 16 + y) as u8),
            _ => None,
        }
    }
}

/// Whether some first characters of `s` take exactly `bytes` bytes, so
/// that a byte slice may end there.
pub open spec fn char_boundary(s: Seq<char>, bytes: nat) -> bool {
    exists|k: int| 0 <= k <= s.len() && #[trigger] utf8_len(s.take(k)) == bytes
}

/// Whether reading `lower` as `#rrggbb` cuts a character in two: seven
/// UTF-8 bytes starting with `#`, but the byte pairs do not fall on
/// characters. (Reading it so panics.)
pub open spec fn hex_form_cuts_char(lower: Seq<char>) -> bool {
    &&& utf8_len(lower) == 7
    &&& lower.len() > 0
    &&& lower[0] == '#'
    &&& !(char_boundary(lower, 3) && char_boundary(lower, 5))
}

/// The color a setting names: a color name (trimmed, any case), `ansi:N`
/// for palette entry `N`, or `#rrggbb`; anything else is `Reset`.
pub open spec fn parse_color_spec(value: Seq<char>) -> ThemeColor {
    let lower = ascii_lower_seq(trim_spec(value));
    if lower == "reset"@ {
        ThemeColor::Reset
    } else if lower == "black"@ {
        ThemeColor::Black
    } else if lower == "red"@ {
        ThemeColor::Red
    } else if lower == "green"@ {
        ThemeColor::Green
    } else if lower == "yellow"@ {
        ThemeColor::Yellow
    } else if lower == "blue"@ {
        ThemeColor::Blue
    } else if lower == "magenta"@ {
        ThemeColor::Magenta
    } else if lower == "cyan"@ {
        ThemeColor::Cyan
    } else if lower == "gray"@ || lower == "grey"@ {
        ThemeColor::Gray
    } else if lower == "dark_gray"@ || lower == "dark_grey"@ || lower == "darkgray"@ || lower
        == "darkgrey"@ {
        ThemeColor::DarkGray
    } else if lower == "light_red"@ || lower == "lightred"@ {
        ThemeColor::LightRed
    } else if lower == "light_green"@ || lower == "lightgreen"@ {
        ThemeColor::LightGreen
    } else if lower == "light_yellow"@ || lower == "lightyellow"@ {
        ThemeColor::LightYellow
    } else if lower == "light_blue"@ || lower == "lightblue"@ {
        ThemeColor::LightBlue
    } else if lower == "light_magenta"@ || lower == "lightmagenta"@ {
        ThemeColor::LightMagenta
    } else if lower == "light_cyan"@ || lower == "lightcyan"@ {
        ThemeColor::LightCyan
    } else if lower == "white"@ {
        ThemeColor::White
    } else if "ansi:"@.len() <= lower.len() && lower.take("ansi:"@.len() as int) == "ansi:"@ {
        match parse_unsigned_spec(lower.skip("ansi:"@.len() as int), u8::MAX as nat) {
            Some(n) => ThemeColor::Indexed(n as u8),
            None => ThemeColor::Reset,
        }
    } else if lower.len() == 7 && lower[0] == '#' && utf8_len(lower) == 7 {
        match (
            hex_byte(lower[1], lower[2]),
            hex_byte(lower[3], lower[4]),
            hex_byte(lower[5], lower[6]),
        ) {
            (Some(r), Some(g), Some(b)) => ThemeColor::Rgb(r, g, b),
            _ => ThemeColor::Reset,
        }
    } else {
        ThemeColor::Reset
    }
}


/// Each character takes at least one byte; exactly one each when all are
/// ASCII.
proof fn lemma_utf8_len_ascii(s: Seq<char>)
    ensures
        utf8_len(s) >= s.len(),
        utf8_len(s) == s.len() <==> forall|j: int| 0 <= j < s.len() ==> (s[j] as u32) < 0x80,
    decreases s.len(),
{
    if s.len() > 0 {
        lemma_utf8_len_ascii(s.drop_last());
        if utf8_len(s) == s.len() {
            assert forall|j: int| 0 <= j < s.len() implies (s[j] as u32) < 0x80 by {
                if j < s.len() - 1 {
                    assert(s[j] == s.drop_last()[j]);
                }
            }
        }
        if forall|j: int| 0 <= j < s.len() ==> (s[j] as u32) < 0x80 {
            assert forall|j: int| 0 <= j < s.drop_last().len() implies (s.drop_last()[j] as u32)
                < 0x80 by {
                assert(s.drop_last()[j] == s[j]);
            }
            assert((s.last() as u32) < 0x80);
        }
    }
}

fn hex_digit_exec(c: char) -> (digit: Option<u8>)
    ensures
        match digit {
            Some(d) => hex_digit(c) == Some(d as nat),
            None => hex_digit(c) is None,
        },
{
    let v = c as u32;
    if '0' <= c && c <= '9' {
        Some((v - 48) as u8)
    } else if 'a' <= c && c <= 'f' {
        Some((v - 97 + 10) as u8)
    } else if 'A' <= c && c <= 'F' {
        Some((v - 65 + 10) as u8)
    } else {
        None
    }
}

fn hex_byte_exec(a: char, b: char) -> (byte: Option<u8>)
    ensures
        byte == hex_byte(a, b),
{
    if a == '+' {
        match hex_digit_exec(b) {
            Some(d) => Some(d),
            None => None,
        }
    } else {
        match (hex_digit_exec(a), hex_digit_exec(b)) {
            (Some(x), Some(y)) => Some(x * 16 + y),
            _ => None,
        }
    }
}

/// The color a setting names: a color name (trimmed, any case), `ansi:N`
/// for palette entry `N`, or `#rrggbb`; anything else is `Reset`.
pub fn parse_color(value: &str) -> (color: ThemeColor)
    requires
        !hex_form_cuts_char(ascii_lower_seq(trim_spec(value@))),
    ensures
        color == parse_color_spec(value@),
{
    let lower = to_ascii_lowercase(&trim(&chars_of(value)));
    if chars_eq(&lower, "reset") {
        ThemeColor::Reset
    } else if chars_eq(&lower, "black") {
        ThemeColor::Black
    } else if chars_eq(&lower, "red") {
        ThemeColor::Red
    } else if chars_eq(&lower, "green") {
        ThemeColor::Green
    } else if chars_eq(&lower, "yellow") {
        ThemeColor::Yellow
    } else if chars_eq(&lower, "blue") {
        ThemeColor::Blue
    } else if chars_eq(&lower, "magenta") {
        ThemeColor::Magenta
    } else if chars_eq(&lower, "cyan") {
        ThemeColor::Cyan
    } else if chars_eq(&lower, "gray") || chars_eq(&lower, "grey") {
        ThemeColor::Gray
    } else if chars_eq(&lower, "dark_gray") || chars_eq(&lower, "dark_grey") || chars_eq(
        &lower,
        "darkgray",
    ) || chars_eq(&lower, "darkgrey") {
        ThemeColor::DarkGray
    } else if chars_eq(&lower, "light_red") || chars_eq(&lower, "lightred") {
        ThemeColor::LightRed
    } else if chars_eq(&lower, "light_green") || chars_eq(&lower, "lightgreen") {
        ThemeColor::LightGreen
    } else if chars_eq(&lower, "light_yellow") || chars_eq(&lower, "lightyellow") {
        ThemeColor::LightYellow
    } else if chars_eq(&lower, "light_blue") || chars_eq(&lower, "lightblue") {
        ThemeColor::LightBlue
    } else if chars_eq(&lower, "light_magenta") || chars_eq(&lower, "lightmagenta") {
        ThemeColor::LightMagenta
    } else if chars_eq(&lower, "light_cyan") || chars_eq(&lower, "lightcyan") {
        ThemeColor::LightCyan
    } else if chars_eq(&lower, "white") {
        ThemeColor::White
    } else {
        match strip_prefix(&lower, "ansi:") {
            Some(raw) => {
                return match parse_unsigned(&raw, 255) {
                    Some(n) => ThemeColor::Indexed(n as u8),
                    None => ThemeColor::Reset,
                };
            },
            None => {},
        }
        if lower.len() == 7 && lower[0] == '#' {
            let mut ascii = true;
            let mut j: usize = 0;
            while j < 7
                invariant
                    lower@.len() == 7,
                    j <= 7,
                    ascii == forall|k: int| 0 <= k < j ==> (lower@[k] as u32) < 0x80,
                decreases 7 - j,
            {
                if (lower[j] as u32) >= 0x80 {
                    ascii = false;
                }
                j += 1;
            }
            proof {
                lemma_utf8_len_ascii(lower@);
            }
            if ascii {
                match (
                    hex_byte_exec(lower[1], lower[2]),
                    hex_byte_exec(lower[3], lower[4]),
                    hex_byte_exec(lower[5], lower[6]),
                ) {
                    (Some(r), Some(g), Some(b)) => ThemeColor::Rgb(r, g, b),
                    _ => ThemeColor::Reset,
                }
            } else {
                ThemeColor::Reset
            }
        } else {
            ThemeColor::Reset
        }
    }
}

impl ThemeConfig {
    /// The color a setting names (see `parse_color`).
    pub fn color(&self, value: &str) -> (color: ThemeColor)
        requires
            !hex_form_cuts_char(ascii_lower_seq(trim_spec(value@))),
        ensures
            color == parse_color_spec(value@),
    {
        parse_color(value)
    }
}

/// A lowercase name of letters and `_` reads as itself.
proof fn lemma_plain_name(s: Seq<char>)
    requires
        s.len() > 0,
        forall|j: int| 0 <= j < s.len() ==> ('a' <= #[trigger] s[j] && s[j] <= 'z') || s[j] == '_',
    ensures
        ascii_lower_seq(trim_spec(s)) == s,
{
    assert(!is_whitespace_spec(s[0]));
    assert(!is_whitespace_spec(s[s.len() - 1]));
    lemma_trim_unpadded(s);
    lemma_lower_unchanged(s);
}

/// Each named color reads as the color of that name.
pub proof fn lemma_color_names_read_as_their_colors()
    ensures
        parse_color_spec("reset"@) == ThemeColor::Reset,
        parse_color_spec("black"@) == ThemeColor::Black,
        parse_color_spec("red"@) == ThemeColor::Red,
        parse_color_spec("green"@) == ThemeColor::Green,
        parse_color_spec("yellow"@) == ThemeColor::Yellow,
        parse_color_spec("blue"@) == ThemeColor::Blue,
        parse_color_spec("magenta"@) == ThemeColor::Magenta,
        parse_color_spec("cyan"@) == ThemeColor::Cyan,
        parse_color_spec("gray"@) == ThemeColor::Gray,
        parse_color_spec("dark_gray"@) == ThemeColor::DarkGray,
        parse_color_spec("light_red"@) == ThemeColor::LightRed,
        parse_color_spec("light_green"@) == ThemeColor::LightGreen,
        parse_color_spec("light_yellow"@) == ThemeColor::LightYellow,
        parse_color_spec("light_blue"@) == ThemeColor::LightBlue,
        parse_color_spec("light_magenta"@) == ThemeColor::LightMagenta,
        parse_color_spec("light_cyan"@) == ThemeColor::LightCyan,
        parse_color_spec("white"@) == ThemeColor::White,
{
    reveal_strlit("reset");
    reveal_strlit("black");
    reveal_strlit("red");
    reveal_strlit("green");
    reveal_strlit("yellow");
    reveal_strlit("blue");
    reveal_strlit("magenta");
    reveal_strlit("cyan");
    reveal_strlit("gray");
    reveal_strlit("grey");
    reveal_strlit("dark_gray");
    reveal_strlit("dark_grey");
    reveal_strlit("darkgray");
    reveal_strlit("darkgrey");
    reveal_strlit("light_red");
    reveal_strlit("lightred");
    reveal_strlit("light_green");
    reveal_strlit("lightgreen");
    reveal_strlit("light_yellow");
    reveal_strlit("lightyellow");
    reveal_strlit("light_blue");
    reveal_strlit("lightblue");
    reveal_strlit("light_magenta");
    reveal_strlit("lightmagenta");
    reveal_strlit("light_cyan");
    reveal_strlit("lightcyan");
    reveal_strlit("white");
    lemma_plain_name("reset"@);
    lemma_plain_name("black"@);
    lemma_plain_name("red"@);
    lemma_plain_name("green"@);
    lemma_plain_name("yellow"@);
    lemma_plain_name("blue"@);
    lemma_plain_name("magenta"@);
    lemma_plain_name("cyan"@);
    lemma_plain_name("gray"@);
    lemma_plain_name("dark_gray"@);
    lemma_plain_name("light_red"@);
    lemma_plain_name("light_green"@);
    lemma_plain_name("light_yellow"@);
    lemma_plain_name("light_blue"@);
    lemma_plain_name("light_magenta"@);
    lemma_plain_name("light_cyan"@);
    lemma_plain_name("white"@);
}

/// A text with no space at either end and no capital letter reads as
/// itself.
proof fn lemma_reads_as_itself(s: Seq<char>)
    requires
        s.len() > 0,
        !is_whitespace_spec(s[0]),
        !is_whitespace_spec(s[s.len() - 1]),
        forall|j: int| 0 <= j < s.len() ==> !('A' <= #[trigger] s[j] && s[j] <= 'Z'),
    ensures
        ascii_lower_seq(trim_spec(s)) == s,
{
    lemma_trim_unpadded(s);
    lemma_lower_unchanged(s);
}

/// `ansi:N` names palette entry `N`, for every `N` of the palette.
pub proof fn lemma_ansi_names_read_as_palette_entries(n: u8)
    ensures
        parse_color_spec("ansi:"@ + crate::text::decimal_spec(n as nat)) == ThemeColor::Indexed(n),
{
    reveal_strlit("ansi:");
    reveal_strlit("reset");
    reveal_strlit("black");
    reveal_strlit("red");
    reveal_strlit("green");
    reveal_strlit("yellow");
    reveal_strlit("blue");
    reveal_strlit("magenta");
    reveal_strlit("cyan");
    reveal_strlit("gray");
    reveal_strlit("grey");
    reveal_strlit("dark_gray");
    reveal_strlit("dark_grey");
    reveal_strlit("darkgray");
    reveal_strlit("darkgrey");
    reveal_strlit("light_red");
    reveal_strlit("lightred");
    reveal_strlit("light_green");
    reveal_strlit("lightgreen");
    reveal_strlit("light_yellow");
    reveal_strlit("lightyellow");
    reveal_strlit("light_blue");
    reveal_strlit("lightblue");
    reveal_strlit("light_magenta");
    reveal_strlit("lightmagenta");
    reveal_strlit("light_cyan");
    reveal_strlit("lightcyan");
    reveal_strlit("white");
    let d = crate::text::decimal_spec(n as nat);
    crate::bookmarks::lemma_decimal_facts(n as nat);
    let v = "ansi:"@ + d;
    assert(v[0] == 'a');
    assert(d[0] != '+');
    assert(crate::text::is_digit(d[d.len() - 1]));
    assert(v[v.len() - 1] == d[d.len() - 1]);
    assert forall|j: int| 0 <= j < v.len() implies !('A' <= #[trigger] v[j] && v[j] <= 'Z') by {
        if j >= 5 {
            assert(v[j] == d[j - 5]);
            assert(crate::text::is_digit(d[j - 5]));
        }
    }
    lemma_reads_as_itself(v);
    assert(v != "reset"@) by {
        assert(v[0] != "reset"@[0]);
    }
    assert(v != "black"@) by {
        assert(v[0] != "black"@[0]);
    }
    assert(v != "red"@) by {
        assert(v[0] != "red"@[0]);
    }
    assert(v != "green"@) by {
        assert(v[0] != "green"@[0]);
    }
    assert(v != "yellow"@) by {
        assert(v[0] != "yellow"@[0]);
    }
    assert(v != "blue"@) by {
        assert(v[0] != "blue"@[0]);
    }
    assert(v != "magenta"@) by {
        assert(v[0] != "magenta"@[0]);
    }
    assert(v != "cyan"@) by {
        assert(v[0] != "cyan"@[0]);
    }
    assert(v != "gray"@) by {
        assert(v[0] != "gray"@[0]);
    }
    assert(v != "grey"@) by {
        assert(v[0] != "grey"@[0]);
    }
    assert(v != "dark_gray"@) by {
        assert(v[0] != "dark_gray"@[0]);
    }
    assert(v != "dark_grey"@) by {
        assert(v[0] != "dark_grey"@[0]);
    }
    assert(v != "darkgray"@) by {
        assert(v[0] != "darkgray"@[0]);
    }
    assert(v != "darkgrey"@) by {
        assert(v[0] != "darkgrey"@[0]);
    }
    assert(v != "light_red"@) by {
        assert(v[0] != "light_red"@[0]);
    }
    assert(v != "lightred"@) by {
        assert(v[0] != "lightred"@[0]);
    }
    assert(v != "light_green"@) by {
        assert(v[0] != "light_green"@[0]);
    }
    assert(v != "lightgreen"@) by {
        assert(v[0] != "lightgreen"@[0]);
    }
    assert(v != "light_yellow"@) by {
        assert(v[0] != "light_yellow"@[0]);
    }
    assert(v != "lightyellow"@) by {
        assert(v[0] != "lightyellow"@[0]);
    }
    assert(v != "light_blue"@) by {
        assert(v[0] != "light_blue"@[0]);
    }
    assert(v != "lightblue"@) by {
        assert(v[0] != "lightblue"@[0]);
    }
    assert(v != "light_magenta"@) by {
        assert(v[0] != "light_magenta"@[0]);
    }
    assert(v != "lightmagenta"@) by {
        assert(v[0] != "lightmagenta"@[0]);
    }
    assert(v != "light_cyan"@) by {
        assert(v[0] != "light_cyan"@[0]);
    }
    assert(v != "lightcyan"@) by {
        assert(v[0] != "lightcyan"@[0]);
    }
    assert(v != "white"@) by {
        assert(v[0] != "white"@[0]);
    }
    assert(v.take(5) =~= "ansi:"@);
    assert(v.skip(5) =~= d);
}

/// A lowercase hexadecimal digit is a plain ASCII character that reads
/// back as its value.
proof fn lemma_hex_digit_reads_back(d: nat)
    requires
        d < 16,
    ensures
        hex_digit(crate::pdf::hex_lower_digit(d)) == Some(d),
        (crate::pdf::hex_lower_digit(d) as u32) < 0x80,
        crate::pdf::hex_lower_digit(d) != '+',
        !('A' <= crate::pdf::hex_lower_digit(d) && crate::pdf::hex_lower_digit(d) <= 'Z'),
        !is_whitespace_spec(crate::pdf::hex_lower_digit(d)),
{
}

proof fn lemma_hex_pair_reads_back(x: u8)
    ensures
        hex_byte(crate::pdf::hex_lower_digit((x / 16) as nat), crate::pdf::hex_lower_digit((x % 16) as nat))
            == Some(x),
{
    lemma_hex_digit_reads_back((x / 16) as nat);
    lemma_hex_digit_reads_back((x % 16) as nat);
    assert((x / 16) as nat * 16 + (x % 16) as nat == x);
}

/// A text starting with `#` is no color name and no `ansi:` name.
proof fn lemma_hash_text_is_unnamed(v: Seq<char>)
    requires
        v.len() == 7,
        v[0] == '#',
    ensures
        !("ansi:"@.len() <= v.len() && v.take("ansi:"@.len() as int) == "ansi:"@),
        v != "reset"@,
        v != "black"@,
        v != "red"@,
        v != "green"@,
        v != "yellow"@,
        v != "blue"@,
        v != "magenta"@,
        v != "cyan"@,
        v != "gray"@,
        v != "grey"@,
        v != "dark_gray"@,
        v != "dark_grey"@,
        v != "darkgray"@,
        v != "darkgrey"@,
        v != "light_red"@,
        v != "lightred"@,
        v != "light_green"@,
        v != "lightgreen"@,
        v != "light_yellow"@,
        v != "lightyellow"@,
        v != "light_blue"@,
        v != "lightblue"@,
        v != "light_magenta"@,
        v != "lightmagenta"@,
        v != "light_cyan"@,
        v != "lightcyan"@,
        v != "white"@,
{
    reveal_strlit("ansi:");
    reveal_strlit("reset");
    reveal_strlit("black");
    reveal_strlit("red");
    reveal_strlit("green");
    reveal_strlit("yellow");
    reveal_strlit("blue");
    reveal_strlit("magenta");
    reveal_strlit("cyan");
    reveal_strlit("gray");
    reveal_strlit("grey");
    reveal_strlit("dark_gray");
    reveal_strlit("dark_grey");
    reveal_strlit("darkgray");
    reveal_strlit("darkgrey");
    reveal_strlit("light_red");
    reveal_strlit("lightred");
    reveal_strlit("light_green");
    reveal_strlit("lightgreen");
    reveal_strlit("light_yellow");
    reveal_strlit("lightyellow");
    reveal_strlit("light_blue");
    reveal_strlit("lightblue");
    reveal_strlit("light_magenta");
    reveal_strlit("lightmagenta");
    reveal_strlit("light_cyan");
    reveal_strlit("lightcyan");
    reveal_strlit("white");
    assert(v.take(5)[0] != "ansi:"@[0]);
    assert(v != "reset"@) by {
        assert(v[0] != "reset"@[0]);
    }
    assert(v != "black"@) by {
        assert(v[0] != "black"@[0]);
    }
    assert(v != "red"@) by {
        assert(v[0] != "red"@[0]);
    }
    assert(v != "green"@) by {
        assert(v[0] != "green"@[0]);
    }
    assert(v != "yellow"@) by {
        assert(v[0] != "yellow"@[0]);
    }
    assert(v != "blue"@) by {
        assert(v[0] != "blue"@[0]);
    }
    assert(v != "magenta"@) by {
        assert(v[0] != "magenta"@[0]);
    }
    assert(v != "cyan"@) by {
        assert(v[0] != "cyan"@[0]);
    }
    assert(v != "gray"@) by {
        assert(v[0] != "gray"@[0]);
    }
    assert(v != "grey"@) by {
        assert(v[0] != "grey"@[0]);
    }
    assert(v != "dark_gray"@) by {
        assert(v[0] != "dark_gray"@[0]);
    }
    assert(v != "dark_grey"@) by {
        assert(v[0] != "dark_grey"@[0]);
    }
    assert(v != "darkgray"@) by {
        assert(v[0] != "darkgray"@[0]);
    }
    assert(v != "darkgrey"@) by {
        assert(v[0] != "darkgrey"@[0]);
    }
    assert(v != "light_red"@) by {
        assert(v[0] != "light_red"@[0]);
    }
    assert(v != "lightred"@) by {
        assert(v[0] != "lightred"@[0]);
    }
    assert(v != "light_green"@) by {
        assert(v[0] != "light_green"@[0]);
    }
    assert(v != "lightgreen"@) by {
        assert(v[0] != "lightgreen"@[0]);
    }
    assert(v != "light_yellow"@) by {
        assert(v[0] != "light_yellow"@[0]);
    }
    assert(v != "lightyellow"@) by {
        assert(v[0] != "lightyellow"@[0]);
    }
    assert(v != "light_blue"@) by {
        assert(v[0] != "light_blue"@[0]);
    }
    assert(v != "lightblue"@) by {
        assert(v[0] != "lightblue"@[0]);
    }
    assert(v != "light_magenta"@) by {
        assert(v[0] != "light_magenta"@[0]);
    }
    assert(v != "lightmagenta"@) by {
        assert(v[0] != "lightmagenta"@[0]);
    }
    assert(v != "light_cyan"@) by {
        assert(v[0] != "light_cyan"@[0]);
    }
    assert(v != "lightcyan"@) by {
        assert(v[0] != "lightcyan"@[0]);
    }
    assert(v != "white"@) by {
        assert(v[0] != "white"@[0]);
    }
}

/// `#rrggbb` names the color with those red, green and blue bytes, as
/// lowercase hexadecimal writes them.
pub proof fn lemma_hex_names_read_as_rgb(r: u8, g: u8, b: u8)
    ensures
        parse_color_spec(seq!['#'] + crate::pdf::hex_lower(seq![r, g, b])) == ThemeColor::Rgb(r, g, b),
{
    let bytes = seq![r, g, b];
    reveal_with_fuel(crate::pdf::hex_lower, 4);
    assert(bytes.drop_last() =~= seq![r, g]);
    assert(seq![r, g].drop_last() =~= seq![r]);
    assert(seq![r].drop_last() =~= Seq::<u8>::empty());
    let digits = seq![
        crate::pdf::hex_lower_digit((r / 16) as nat),
        crate::pdf::hex_lower_digit((r % 16) as nat),
        crate::pdf::hex_lower_digit((g / 16) as nat),
        crate::pdf::hex_lower_digit((g % 16) as nat),
        crate::pdf::hex_lower_digit((b / 16) as nat),
        crate::pdf::hex_lower_digit((b % 16) as nat),
    ];
    assert(crate::pdf::hex_lower(bytes) =~= digits);
    let v = seq!['#'] + digits;
    lemma_hex_digit_reads_back((r / 16) as nat);
    lemma_hex_digit_reads_back((r % 16) as nat);
    lemma_hex_digit_reads_back((g / 16) as nat);
    lemma_hex_digit_reads_back((g % 16) as nat);
    lemma_hex_digit_reads_back((b / 16) as nat);
    lemma_hex_digit_reads_back((b % 16) as nat);
    lemma_hex_pair_reads_back(r);
    lemma_hex_pair_reads_back(g);
    lemma_hex_pair_reads_back(b);
    assert(v.len() == 7);
    assert(v[0] == '#');
    assert forall|j: int| 0 <= j < v.len() implies {
        &&& !('A' <= #[trigger] v[j] && v[j] <= 'Z')
        &&& (v[j] as u32) < 0x80
    } by {
        if j >= 1 {
            assert(v[j] == digits[j - 1]);
        }
    }
    assert(v[6] == digits[5]);
    lemma_reads_as_itself(v);
    lemma_utf8_len_ascii(v);
    lemma_hash_text_is_unnamed(v);
    assert(v[1] == digits[0] && v[2] == digits[1] && v[3] == digits[2] && v[4] == digits[3] && v[5]
        == digits[4] && v[6] == digits[5]);
}

} // verus!
