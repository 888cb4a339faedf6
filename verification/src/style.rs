//! Text styles: `bold red on blue`, `color12`, `gray5`, `rgb123`.
use vstd::prelude::*;
use vstd::string::*;
use vstd::utf8::{decode_utf8, encode_utf8, is_char_boundary};

use crate::text::{
    begins_with, chars_of, contains, decimal, digit_char, digits_value, find, first_at, has,
    lowercase, occurs_at, parse_u8, replace_all, replaced, same, strip_all, strip_prefixes, to_lowercase, to_text, trim_chars, trimmed, unsigned_value,
};

verus! {

/// A colour of the 256-colour palette.
#[derive(Clone, Copy, Debug, PartialEq, Eq, Structural)]
pub enum Color {
    Indexed(u8),
}

/// The text attributes that a style can add.
#[derive(Clone, Copy, Debug, PartialEq, Eq, Structural)]
pub struct Modifier {
    pub underlined: bool,
    pub bold: bool,
    pub reversed: bool,
}

/// A text style.
#[derive(Clone, Copy, Debug, PartialEq, Eq, Structural)]
pub struct Style {
    pub fg: Option<Color>,
    pub bg: Option<Color>,
    pub modifier: Modifier,
}

/// The style that changes nothing.
pub open spec fn plain_style() -> Style {
    Style {
        fg: None,
        bg: None,
        modifier: Modifier { underlined: false, bold: false, reversed: false },
    }
}

impl Default for Style {
    fn default() -> (r: Style)
        ensures
            r == plain_style(),
    {
        Style {
            fg: None,
            bg: None,
            modifier: Modifier { underlined: false, bold: false, reversed: false },
        }
    }
}

// ── Colours ─────────────────────────────────────────────────────────────────

/// The byte that a text reads as in decimal; zero where it reads as none.
pub open spec fn byte_or_zero(s: Seq<char>) -> int {
    match unsigned_value(s) {
        Some(n) if n <= 255 => n as int,
        _ => 0,
    }
}

/// The decimal digit that a byte stands for; zero where it stands for none.
pub open spec fn digit_or_zero(b: u8) -> int {
    if 48 <= b <= 57 {
        b - 48
    } else {
        0
    }
}

/// The colour-cube digits of a text such as `rgb123`: its bytes from the fourth on.
pub open spec fn cube_digit(s: Seq<char>, i: int) -> int {
    digit_or_zero(encode_utf8(s)[i])
}

/// The palette index of the named colours.
pub open spec fn named_color(s: Seq<char>) -> Option<u8> {
    if s == "bold black"@ {
        Some(8)
    } else if s == "bold red"@ {
        Some(9)
    } else if s == "bold green"@ {
        Some(10)
    } else if s == "bold yellow"@ {
        Some(11)
    } else if s == "bold blue"@ {
        Some(12)
    } else if s == "bold magenta"@ {
        Some(13)
    } else if s == "bold cyan"@ {
        Some(14)
    } else if s == "bold white"@ {
        Some(15)
    } else if s == "black"@ {
        Some(0)
    } else if s == "red"@ {
        Some(1)
    } else if s == "green"@ {
        Some(2)
    } else if s == "yellow"@ {
        Some(3)
    } else if s == "blue"@ {
        Some(4)
    } else if s == "magenta"@ {
        Some(5)
    } else if s == "cyan"@ {
        Some(6)
    } else if s == "white"@ {
        Some(7)
    } else {
        None
    }
}

/// The palette index that a trimmed text describes, before any limit.
pub open spec fn color_index(s: Seq<char>) -> Option<int> {
    if contains(s, "bright color"@) {
        Some(byte_or_zero(strip_all(strip_all(s, "bright "@), "color"@)))
    } else if contains(s, "color"@) {
        Some(byte_or_zero(strip_all(s, "color"@)))
    } else if contains(s, "gray"@) {
        Some(232 + byte_or_zero(strip_all(s, "gray"@)))
    } else if contains(s, "rgb"@) {
        Some(16 + 36 * cube_digit(s, 3) + 6 * cube_digit(s, 4) + cube_digit(s, 5))
    } else {
        match named_color(s) {
            Some(n) => Some(n as int),
            None => None,
        }
    }
}

/// The texts that describe a palette entry, or none at all: a gray or cube colour
/// must lie within the palette, and a cube colour must have its three digits.
pub open spec fn color_accepts(s: Seq<char>) -> bool {
    &&& contains(s, "rgb"@) && !contains(s, "gray"@) && !contains(s, "color"@) && !contains(
        s,
        "bright color"@,
    ) ==> encode_utf8(s).len() >= 6
    &&& color_index(s) matches Some(n) ==> n <= 255
}

/// The colour that a text describes.
pub open spec fn color_of(s: Seq<char>) -> Option<Color> {
    match color_index(trimmed(s)) {
        Some(n) => Some(Color::Indexed(n as u8)),
        None => None,
    }
}

fn digit_of(b: u8) -> (r: u32)
    ensures
        r == digit_or_zero(b),
        r <= 9,
{
    if b >= 48 && b <= 57 {
        (b - 48) as u32
    } else {
        0
    }
}

fn byte_of(v: &Vec<char>) -> (r: u32)
    ensures
        r == byte_or_zero(v@),
        r <= 255,
{
    match parse_u8(v) {
        Some(n) => n as u32,
        None => 0,
    }
}

fn index_of_name(s: &str) -> (r: Option<u8>)
    ensures
        r == named_color(s@),
{
    if same(s, "bold black") {
        Some(8)
    } else if same(s, "bold red") {
        Some(9)
    } else if same(s, "bold green") {
        Some(10)
    } else if same(s, "bold yellow") {
        Some(11)
    } else if same(s, "bold blue") {
        Some(12)
    } else if same(s, "bold magenta") {
        Some(13)
    } else if same(s, "bold cyan") {
        Some(14)
    } else if same(s, "bold white") {
        Some(15)
    } else if same(s, "black") {
        Some(0)
    } else if same(s, "red") {
        Some(1)
    } else if same(s, "green") {
        Some(2)
    } else if same(s, "yellow") {
        Some(3)
    } else if same(s, "blue") {
        Some(4)
    } else if same(s, "magenta") {
        Some(5)
    } else if same(s, "cyan") {
        Some(6)
    } else if same(s, "white") {
        Some(7)
    } else {
        None
    }
}

/// Reads a colour; `Err` stands for a text outside `color_accepts`.
pub fn try_parse_color(s: &str) -> (r: Result<Option<Color>, ()>)
    ensures
        r is Ok == color_accepts(trimmed(s@)),
        r matches Ok(c) ==> c == color_of(s@),
{
    let v = chars_of(s);
    let t = trim_chars(&v);
    proof {
        reveal_strlit("bright ");
        reveal_strlit("color");
        reveal_strlit("gray");
    }
    if has(&t, "bright color") {
        let a = strip_prefixes(&t, "bright ");
        let b = strip_prefixes(&a, "color");
        Ok(Some(Color::Indexed(byte_of(&b) as u8)))
    } else if has(&t, "color") {
        let b = strip_prefixes(&t, "color");
        Ok(Some(Color::Indexed(byte_of(&b) as u8)))
    } else if has(&t, "gray") {
        let b = strip_prefixes(&t, "gray");
        let n: u32 = 232 + byte_of(&b);
        if n <= 255 {
            Ok(Some(Color::Indexed(n as u8)))
        } else {
            Err(())
        }
    } else if has(&t, "rgb") {
        let text = to_text(&t);
        let bytes = text.as_str().as_bytes();
        if bytes.len() < 6 {
            return Err(());
        }
        let n: u32 = 16 + 36 * digit_of(bytes[3]) + 6 * digit_of(bytes[4]) + digit_of(bytes[5]);
        if n <= 255 {
            Ok(Some(Color::Indexed(n as u8)))
        } else {
            Err(())
        }
    } else {
        let text = to_text(&t);
        match index_of_name(text.as_str()) {
            Some(n) => Ok(Some(Color::Indexed(n))),
            None => Ok(None),
        }
    }
}

/// The colour that a text describes, if any.
pub fn parse_color(s: &str) -> (r: Option<Color>)
    requires
        color_accepts(trimmed(s@)),
    ensures
        r == color_of(s@),
{
    match try_parse_color(s) {
        Ok(c) => c,
        Err(_) => None,
    }
}

/// A text that lacks a character of another does not contain it.
proof fn lemma_absent(s: Seq<char>, p: Seq<char>, k: int)
    requires
        0 <= k < p.len(),
        forall|i: int| 0 <= i < s.len() ==> s[i] != p[k],
    ensures
        !contains(s, p),
{
    if contains(s, p) {
        let i = choose|i: int| occurs_at(s, p, i);
        assert(s.subrange(i, i + p.len())[k] == s[i + k]);
    }
}

/// The text of a cube colour.
pub open spec fn cube_text(r: int, g: int, b: int) -> Seq<char> {
    "rgb"@ + seq![digit_char(r), digit_char(g), digit_char(b)]
}

/// The text of a gray.
pub open spec fn gray_text(n: nat) -> Seq<char> {
    "gray"@ + decimal(n)
}

/// Three digits up to five name an entry of the colour cube, from 16 to 231: different digits
/// different entries, and every entry is named.
pub proof fn law_cube_is_filled(r: int, g: int, b: int)
    requires
        0 <= r <= 5,
        0 <= g <= 5,
        0 <= b <= 5,
    ensures
        color_accepts(trimmed(cube_text(r, g, b))),
        color_of(cube_text(r, g, b)) == Some(Color::Indexed((16 + 36 * r + 6 * g + b) as u8)),
        16 <= 16 + 36 * r + 6 * g + b <= 231,
        forall|r1: int, g1: int, b1: int|
            #![trigger cube_text(r1, g1, b1)]
            0 <= r1 <= 5 && 0 <= g1 <= 5 && 0 <= b1 <= 5 && 36 * r1 + 6 * g1 + b1 == 36 * r + 6 * g
                + b ==> r1 == r && g1 == g && b1 == b,
{
    reveal_strlit("rgb");
    reveal_strlit("gray");
    reveal_strlit("color");
    reveal_strlit("bright color");
    let s = cube_text(r, g, b);
    assert(s.len() == 6 && s[0] == 'r' && s[1] == 'g' && s[2] == 'b');
    assert(s[3] == digit_char(r) && s[4] == digit_char(g) && s[5] == digit_char(b));
    assert(trimmed(s) == s);
    assert("color"@[1] == 'o' && "bright color"@[2] == 'i' && "gray"@[2] == 'a');
    lemma_absent(s, "color"@, 1);
    lemma_absent(s, "bright color"@, 2);
    lemma_absent(s, "gray"@, 2);
    assert(s.subrange(0, 3) =~= "rgb"@);
    assert(occurs_at(s, "rgb"@, 0));
    assert(vstd::utf8::is_ascii_chars(s));
    vstd::utf8::is_ascii_chars_encode_utf8(s);
    assert(encode_utf8(s)[3] == s[3] as u8 && encode_utf8(s)[4] == s[4] as u8 && encode_utf8(s)[5]
        == s[5] as u8);
}

/// Every entry of the colour cube has its digits.
pub proof fn law_cube_entry_has_digits(n: int)
    requires
        16 <= n <= 231,
    ensures
        ({
            let (r, g, b) = ((n - 16) / 36, (n - 16) / 6 % 6, (n - 16) % 6);
            &&& 0 <= r <= 5 && 0 <= g <= 5 && 0 <= b <= 5
            &&& color_of(cube_text(r, g, b)) == Some(Color::Indexed(n as u8))
        }),
{
    let (r, g, b) = ((n - 16) / 36, (n - 16) / 6 % 6, (n - 16) % 6);
    assert(n == 16 + 36 * r + 6 * g + b);
    law_cube_is_filled(r, g, b);
}

/// The grays from 0 to 23 name the last entries of the palette, from 232 to 255; without a
/// number, gray is the first of them.
pub proof fn law_grays_are_filled(n: nat)
    requires
        n <= 23,
    ensures
        color_accepts(trimmed(gray_text(n))),
        color_of(gray_text(n)) == Some(Color::Indexed((232 + n) as u8)),
        color_accepts(trimmed("gray"@)),
        color_of("gray"@) == Some(Color::Indexed(232)),
{
    reveal_strlit("gray");
    reveal_strlit("color");
    reveal_strlit("bright color");
    reveal_with_fuel(decimal, 3);
    reveal_with_fuel(digits_value, 4);
    reveal_with_fuel(strip_all, 3);
    assert("color"@[1] == 'o' && "bright color"@[2] == 'i' && "gray"@[0] == 'g');
    let d = decimal(n);
    let s = gray_text(n);
    let g = "gray"@;
    assert(s.subrange(0, 4) =~= g && s.skip(4) =~= d);
    assert(forall|i: int| 0 <= i < d.len() ==> '0' <= #[trigger] d[i] && d[i] <= '9');
    assert(s[0] == 'g' && s.last() == d.last());
    assert(trimmed(s) == s);
    lemma_absent(s, "color"@, 1);
    lemma_absent(s, "bright color"@, 2);
    assert(occurs_at(s, g, 0));
    assert(!begins_with(d, g)) by {
        if begins_with(d, g) {
            assert(d.subrange(0, 4)[0] == d[0]);
        }
    }
    assert(strip_all(s, g) == d);
    assert(digits_value(d) == Some(n)) by {
        if n < 10 {
            assert(d.drop_last() =~= Seq::<char>::empty());
        } else {
            assert(d.drop_last() =~= decimal(n / 10));
            assert(d.drop_last().drop_last() =~= Seq::<char>::empty());
        }
    }
    assert(trimmed(g) == g);
    lemma_absent(g, "color"@, 1);
    lemma_absent(g, "bright color"@, 2);
    assert(g.subrange(0, 4) =~= g);
    assert(occurs_at(g, g, 0));
    assert(g.skip(4) =~= Seq::<char>::empty());
    assert(strip_all(g, g) == Seq::<char>::empty());
}

// ── Attributes ──────────────────────────────────────────────────────────────

/// A colour text without its attributes, and with one spelling of gray.
pub open spec fn without_attributes(s: Seq<char>) -> Seq<char> {
    let e = ""@;
    replaced(
        replaced(
            replaced(
                replaced(replaced(s, "grey"@, "gray"@), "bright "@, e),
                "bold "@,
                e,
            ),
            "underline "@,
            e,
        ),
        "inverse "@,
        e,
    )
}

/// The attributes that a colour text names.
pub open spec fn attributes(s: Seq<char>) -> Modifier {
    Modifier {
        underlined: contains(s, "underline"@),
        bold: contains(s, "bold"@),
        reversed: contains(s, "inverse"@),
    }
}

/// Splits a colour text into the colour and the attributes.
pub fn process_color_string(color_str: &str) -> (r: (String, Modifier))
    ensures
        r.0@ == without_attributes(color_str@),
        r.1 == attributes(color_str@),
{
    proof {
        reveal_strlit("grey");
        reveal_strlit("bright ");
        reveal_strlit("bold ");
        reveal_strlit("underline ");
        reveal_strlit("inverse ");
    }
    let v = chars_of(color_str);
    let a = replace_all(&v, "grey", "gray");
    let b = replace_all(&a, "bright ", "");
    let c = replace_all(&b, "bold ", "");
    let d = replace_all(&c, "underline ", "");
    let e = replace_all(&d, "inverse ", "");
    let m = Modifier {
        underlined: has(&v, "underline"),
        bold: has(&v, "bold"),
        reversed: has(&v, "inverse"),
    };
    (to_text(&e), m)
}

// ── Styles ──────────────────────────────────────────────────────────────────

/// The byte at which a style splits into foreground and background: where `on `
/// first stands in its lowercase form, or its end.
pub open spec fn style_cut(line: Seq<char>, lowered: Seq<char>) -> int {
    match first_at(lowered, "on "@) {
        Some(i) => encode_utf8(lowered.take(i)).len() as int,
        None => encode_utf8(line).len() as int,
    }
}

/// The foreground and the background text of a style.
pub open spec fn style_halves(line: Seq<char>, lowered: Seq<char>) -> (Seq<char>, Seq<char>) {
    let bytes = encode_utf8(line);
    let cut = style_cut(line, lowered);
    (
        decode_utf8(bytes.subrange(0, cut)),
        replaced(decode_utf8(bytes.subrange(cut, bytes.len() as int)), "on "@, ""@),
    )
}

/// The styles that can be read: the split falls between two characters, and both
/// colours are accepted.
pub open spec fn style_accepts(line: Seq<char>, lowered: Seq<char>) -> bool {
    let (fg, bg) = style_halves(line, lowered);
    &&& style_splits(line, lowered)
    &&& color_accepts(trimmed(without_attributes(fg)))
    &&& color_accepts(trimmed(without_attributes(bg)))
}

/// The style that a text describes.
pub open spec fn style_of(line: Seq<char>, lowered: Seq<char>) -> Style {
    let (fg, bg) = style_halves(line, lowered);
    let a = attributes(fg);
    let b = attributes(bg);
    Style {
        fg: color_of(without_attributes(fg)),
        bg: color_of(without_attributes(bg)),
        modifier: Modifier {
            underlined: a.underlined || b.underlined,
            bold: a.bold || b.bold,
            reversed: a.reversed || b.reversed,
        },
    }
}

/// Whether a style splits between two characters.
pub open spec fn style_splits(line: Seq<char>, lowered: Seq<char>) -> bool {
    &&& style_cut(line, lowered) <= encode_utf8(line).len()
    &&& is_char_boundary(encode_utf8(line), style_cut(line, lowered))
}

/// Splits a style into its foreground and background text.
fn split_style(line: &str, lowered: &str) -> (r: Option<(String, String)>)
    ensures
        r is Some == style_splits(line@, lowered@),
        r matches Some(p) ==> (p.0@, p.1@) == style_halves(line@, lowered@),
{
    let low = chars_of(lowered);
    let on = chars_of("on ");
    let cut: usize = match find(&low, &on) {
        Some(i) => {
            let head = lowered.substring_char(0, i);
            proof {
                assert(lowered@.subrange(0, i as int) =~= lowered@.take(i as int));
            }
            head.as_bytes().len()
        },
        None => line.as_bytes().len(),
    };
    if cut > line.as_bytes().len() || !line.is_char_boundary(cut) {
        return None;
    }
    let (first, second) = line.split_at(cut);
    proof {
        vstd::utf8::encode_utf8_decode_utf8(first@);
        vstd::utf8::encode_utf8_decode_utf8(second@);
        reveal_strlit("on ");
    }
    let second_chars = chars_of(second);
    let bg_chars = replace_all(&second_chars, "on ", "");
    Some((first.to_owned(), to_text(&bg_chars)))
}

/// The colour and the attributes of one half of a style.
fn parse_half(text: &str) -> (r: Option<(Option<Color>, Modifier)>)
    ensures
        r is Some == color_accepts(trimmed(without_attributes(text@))),
        r matches Some(p) ==> p == (color_of(without_attributes(text@)), attributes(text@)),
{
    let (color, m) = process_color_string(text);
    match try_parse_color(color.as_str()) {
        Ok(c) => Some((c, m)),
        Err(_) => None,
    }
}

/// Reads a style whose lowercase form is `lowered`; `None` where it cannot be read.
pub fn parse_style_lowered(line: &str, lowered: &str) -> (r: Option<Style>)
    ensures
        r == (if style_accepts(line@, lowered@) {
            Some(style_of(line@, lowered@))
        } else {
            None
        }),
{
    match split_style(line, lowered) {
        None => None,
        Some((first, second)) => match (parse_half(first.as_str()), parse_half(second.as_str())) {
            (Some((fg, a)), Some((bg, b))) => Some(
                Style {
                    fg,
                    bg,
                    modifier: Modifier {
                        underlined: a.underlined || b.underlined,
                        bold: a.bold || b.bold,
                        reversed: a.reversed || b.reversed,
                    },
                },
            ),
            _ => None,
        },
    }
}

/// The style that a text describes.
pub fn parse_style(line: &str) -> (r: Style)
    requires
        style_accepts(line@, lowercase(line@)),
    ensures
        r == style_of(line@, lowercase(line@)),
{
    let low = to_lowercase(line);
    match parse_style_lowered(line, low.as_str()) {
        Some(s) => s,
        None => Style::default(),
    }
}

/// The style that a text describes; `None` where the text cannot be read.
pub fn try_parse_style(line: &str) -> (r: Option<Style>)
    ensures
        r == (if style_accepts(line@, lowercase(line@)) {
            Some(style_of(line@, lowercase(line@)))
        } else {
            None
        }),
{
    let low = to_lowercase(line);
    match parse_style_lowered(line, low.as_str()) {
        Some(_) => Some(parse_style(line)),
        None => None,
    }
}

} // verus!
