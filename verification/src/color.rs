//! The color type the theming engine works with: straight (non-premultiplied)
//! 8-bit sRGB plus alpha, with hex parsing and formatting.
use vstd::prelude::*;
use crate::text::{chars_of, push_char};

verus! {

/// An sRGB color with 8-bit channels and 8-bit alpha.
#[derive(Clone, Copy, Debug, PartialEq, Eq, Structural)]
pub struct Color {
    pub r: u8,
    pub g: u8,
    pub b: u8,
    pub a: u8,
}

/// The value of a hexadecimal digit (either case).
pub open spec fn hex_digit(c: char) -> Option<int> {
    if '0' <= c && c <= '9' {
        Some(c as int - '0' as int)
    } else if 'a' <= c && c <= 'f' {
        Some(c as int - 'a' as int + 10)
    } else if 'A' <= c && c <= 'F' {
        Some(c as int - 'A' as int + 10)
    } else {
        None
    }
}

/// The byte spelled by two hex digits, high digit first; `None` unless both
/// characters are hex digits.
pub open spec fn hex_pair(a: char, b: char) -> Option<u8> {
    match (hex_digit(a), hex_digit(b)) {
        (Some(x), Some(y)) => Some((16 * x + y) as u8),
        _ => None,
    }
}

/// The byte spelled at positions `i`, `i + 1` of `s`.
pub open spec fn byte_at(s: Seq<char>, i: int) -> Option<u8> {
    hex_pair(s[i], s[i + 1])
}

/// `s` without one leading `#`.
pub open spec fn strip_hash(s: Seq<char>) -> Seq<char> {
    if s.len() > 0 && s[0] == '#' { s.drop_first() } else { s }
}

/// What `from_hex` makes of `s`: six hex-spelled bytes for an opaque color,
/// eight with alpha, anything else refused.
pub open spec fn from_hex_spec(s: Seq<char>) -> Option<Color> {
    let t = strip_hash(s);
    if t.len() == 6 {
        match (byte_at(t, 0), byte_at(t, 2), byte_at(t, 4)) {
            (Some(r), Some(g), Some(b)) => Some(Color { r, g, b, a: 255 }),
            _ => None,
        }
    } else if t.len() == 8 {
        match (byte_at(t, 0), byte_at(t, 2), byte_at(t, 4), byte_at(t, 6)) {
            (Some(r), Some(g), Some(b), Some(a)) => Some(Color { r, g, b, a }),
            _ => None,
        }
    } else {
        None
    }
}

/// The lowercase hex digit for `d` in `0..16`.
pub open spec fn hex_char(d: int) -> char {
    if d < 10 { ('0' as int + d) as char } else { ('a' as int + d - 10) as char }
}

/// Two lowercase hex digits for `v`.
pub open spec fn hex2(v: u8) -> Seq<char> {
    seq![hex_char((v / 16) as int), hex_char((v % 16) as int)]
}

/// `#rrggbb` for `c`.
pub open spec fn to_hex_spec(c: Color) -> Seq<char> {
    seq!['#'] + hex2(c.r) + hex2(c.g) + hex2(c.b)
}

/// Hex digit value of `c`, if it is one.
fn hex_value(c: char) -> (r: Option<u8>)
    ensures
        match hex_digit(c) {
            Some(d) => r == Some(d as u8),
            None => r is None,
        },
{
    if '0' <= c && c <= '9' {
        Some((c as u32 - '0' as u32) as u8)
    } else if 'a' <= c && c <= 'f' {
        Some((c as u32 - 'a' as u32 + 10) as u8)
    } else if 'A' <= c && c <= 'F' {
        Some((c as u32 - 'A' as u32 + 10) as u8)
    } else {
        None
    }
}

/// The byte spelled by the two characters at `i` of `t`.
fn parse_byte(t: &Vec<char>, i: usize) -> (r: Option<u8>)
    requires
        i + 1 < t.len(),
    ensures
        r == byte_at(t@, i as int),
{
    let a = t[i];
    let b = t[i + 1];
    match (hex_value(a), hex_value(b)) {
        (Some(x), Some(y)) => Some(16 * x + y),
        _ => None,
    }
}

/// The lowercase hex digit for `d`.
fn hex_digit_char(d: u8) -> (c: char)
    requires
        d < 16,
    ensures
        c == hex_char(d as int),
{
    if d < 10 {
        ((48u8 + d) as char)
    } else {
        ((87u8 + d) as char)
    }
}

/// The brand orange, used as the signature accent and as a fallback whenever
/// a wallpaper is too washed-out to yield a usable accent of its own.
pub open spec fn signature_orange() -> Color {
    Color { r: 0xff, g: 0x7a, b: 0x1a, a: 255 }
}

/// The brand orange, `#ff7a1a`.
pub fn signature_orange_color() -> (c: Color)
    ensures
        c == signature_orange(),
{
    Color::rgb(0xff, 0x7a, 0x1a)
}

/// The spread between the largest and smallest channel.
pub open spec fn chroma(c: Color) -> int {
    let mx = if c.r >= c.g && c.r >= c.b { c.r } else if c.g >= c.b { c.g } else { c.b };
    let mn = if c.r <= c.g && c.r <= c.b { c.r } else if c.g <= c.b { c.g } else { c.b };
    mx - mn
}

/// True for colors with so little chroma that hue is meaningless: the
/// channels span less than a tenth of the full range.
pub fn is_greyish(c: Color) -> (b: bool)
    ensures
        b == (chroma(c) < 26),
{
    chroma_of(c) < 26
}

impl Color {
    pub fn rgb(r: u8, g: u8, b: u8) -> (c: Color)
        ensures
            c == (Color { r, g, b, a: 255 }),
    {
        Color { r, g, b, a: 255 }
    }

    pub fn rgba(r: u8, g: u8, b: u8, a: u8) -> (c: Color)
        ensures
            c == (Color { r, g, b, a }),
    {
        Color { r, g, b, a }
    }

    /// Parse `#rrggbb` or `#rrggbbaa` (the leading `#` is optional).
    pub fn from_hex(s: &str) -> (r: Option<Color>)
        ensures
            r == from_hex_spec(s@),
    {
        let v = chars_of(s);
        let t: Vec<char> = if v.len() > 0 && v[0] == '#' {
            let mut t: Vec<char> = Vec::new();
            let mut i: usize = 1;
            while i < v.len()
                invariant
                    1 <= i <= v@.len(),
                    t@ == v@.subrange(1, i as int),
                decreases v.len() - i,
            {
                t.push(v[i]);
                proof {
                    assert(t@ =~= v@.subrange(1, i as int + 1));
                }
                i += 1;
            }
            proof {
                assert(t@ =~= v@.drop_first());
            }
            t
        } else {
            v
        };
        proof {
            assert(t@ == strip_hash(s@));
        }
        if t.len() == 6 {
            match (parse_byte(&t, 0), parse_byte(&t, 2), parse_byte(&t, 4)) {
                (Some(r), Some(g), Some(b)) => Some(Color::rgb(r, g, b)),
                _ => None,
            }
        } else if t.len() == 8 {
            match (parse_byte(&t, 0), parse_byte(&t, 2), parse_byte(&t, 4), parse_byte(&t, 6)) {
                (Some(r), Some(g), Some(b), Some(a)) => Some(Color::rgba(r, g, b, a)),
                _ => None,
            }
        } else {
            None
        }
    }

    /// Format as `#rrggbb` (alpha dropped).
    pub fn to_hex(self) -> (s: String)
        ensures
            s@ == to_hex_spec(self),
    {
        let mut s = String::new();
        push_char(&mut s, '#');
        push_char(&mut s, hex_digit_char(self.r / 16));
        push_char(&mut s, hex_digit_char(self.r % 16));
        push_char(&mut s, hex_digit_char(self.g / 16));
        push_char(&mut s, hex_digit_char(self.g % 16));
        push_char(&mut s, hex_digit_char(self.b / 16));
        push_char(&mut s, hex_digit_char(self.b % 16));
        assert(s@ =~= to_hex_spec(self));
        s
    }

    /// Same color at a new alpha.
    pub fn with_alpha(self, a: u8) -> (c: Color)
        ensures
            c == (Color { a, ..self }),
    {
        Color { a, ..self }
    }
}

/// The color palettes fall back on when they have no swatch: a near-black.
pub open spec fn fallback_dominant() -> Color {
    Color { r: 18, g: 18, b: 22, a: 255 }
}

/// The most dominant color of a palette whose swatch colors are `colors`,
/// most dominant first.
pub fn dominant_color(colors: &Vec<Color>) -> (c: Color)
    ensures
        c == if colors@.len() > 0 { colors@[0] } else { fallback_dominant() },
{
    if colors.len() > 0 {
        colors[0]
    } else {
        Color::rgb(18, 18, 22)
    }
}

/// The index of the most vivid (highest chroma) of `colors`; among equally
/// vivid ones, the last.
pub open spec fn most_vivid_index(colors: Seq<Color>) -> int
    decreases colors.len(),
{
    if colors.len() <= 1 {
        0
    } else {
        let k = most_vivid_index(colors.drop_last());
        if chroma(colors.last()) >= chroma(colors[k]) { colors.len() - 1 } else { k }
    }
}

proof fn lemma_most_vivid_index(colors: Seq<Color>)
    requires
        colors.len() > 0,
    ensures
        0 <= most_vivid_index(colors) < colors.len(),
        forall|i: int| 0 <= i < colors.len() ==> chroma(#[trigger] colors[i]) <= chroma(colors[most_vivid_index(colors)]),
        forall|i: int| most_vivid_index(colors) < i < colors.len() ==> chroma(#[trigger] colors[i]) < chroma(
            colors[most_vivid_index(colors)],
        ),
    decreases colors.len(),
{
    if colors.len() > 1 {
        let init = colors.drop_last();
        lemma_most_vivid_index(init);
        assert forall|i: int| 0 <= i < init.len() implies #[trigger] colors[i] == init[i] by {}
    }
}

/// The most vivid color of a palette whose swatch colors are `colors` (the
/// last among equally vivid ones, as `Iterator::max_by` picks); the dominant
/// color when there are none.
pub fn most_vivid_color(colors: &Vec<Color>) -> (c: Color)
    ensures
        colors@.len() > 0 ==> c == colors@[most_vivid_index(colors@)],
        colors@.len() == 0 ==> c == fallback_dominant(),
{
    if colors.len() == 0 {
        return dominant_color(colors);
    }
    let mut best: usize = 0;
    let mut i: usize = 1;
    while i < colors.len()
        invariant
            1 <= i <= colors@.len(),
            best as int == most_vivid_index(colors@.take(i as int)),
        decreases colors.len() - i,
    {
        proof {
            let t = colors@.take(i as int + 1);
            assert(t.drop_last() =~= colors@.take(i as int));
            lemma_most_vivid_index(colors@.take(i as int));
            assert(t[best as int] == colors@[best as int]);
        }
        let c = colors[i];
        let b = colors[best];
        let ci = chroma_of(c);
        let cb = chroma_of(b);
        if ci >= cb {
            best = i;
        }
        i += 1;
    }
    proof {
        assert(colors@.take(colors@.len() as int) =~= colors@);
        lemma_most_vivid_index(colors@);
    }
    colors[best]
}

/// The spread between the largest and smallest channel of `c`.
fn chroma_of(c: Color) -> (d: u8)
    ensures
        d == chroma(c),
{
    let mx = if c.r >= c.g && c.r >= c.b { c.r } else if c.g >= c.b { c.g } else { c.b };
    let mn = if c.r <= c.g && c.r <= c.b { c.r } else if c.g <= c.b { c.g } else { c.b };
    mx - mn
}

/// Every other color is at most as vivid as the one `most_vivid_color` picks,
/// and every later one strictly less.
pub proof fn law_most_vivid_is_maximal(colors: Seq<Color>)
    requires
        colors.len() > 0,
    ensures
        forall|i: int| 0 <= i < colors.len() ==> chroma(#[trigger] colors[i]) <= chroma(colors[most_vivid_index(colors)]),
        forall|i: int| most_vivid_index(colors) < i < colors.len() ==> chroma(#[trigger] colors[i]) < chroma(
            colors[most_vivid_index(colors)],
        ),
{
    lemma_most_vivid_index(colors);
}

/// Formatting a color as hex and parsing it back gives the same color, made
/// opaque.
pub proof fn law_hex_round_trip(c: Color)
    ensures
        from_hex_spec(to_hex_spec(c)) == Some(Color { a: 255, ..c }),
{
    let s = to_hex_spec(c);
    let t = strip_hash(s);
    assert(t =~= hex2(c.r) + hex2(c.g) + hex2(c.b));
    lemma_hex2(c.r);
    lemma_hex2(c.g);
    lemma_hex2(c.b);
    assert(byte_at(t, 0) == Some(c.r));
    assert(byte_at(t, 2) == Some(c.g));
    assert(byte_at(t, 4) == Some(c.b));
}

proof fn lemma_hex2(v: u8)
    ensures
        hex_pair(hex2(v)[0], hex2(v)[1]) == Some(v),
{
    let hi = v / 16;
    let lo = v % 16;
    assert(hex_digit(hex_char(hi as int)) == Some(hi as int));
    assert(hex_digit(hex_char(lo as int)) == Some(lo as int));
    assert(16 * hi + lo == v);
}

} // verus!
