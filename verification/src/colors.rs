//! The terminal color palette handed to the tool generators, and the
//! `#RRGGBB` / packed-integer color notations the theme wizard uses.
use vstd::prelude::*;
use crate::text::{push_str, chars_of, Strip, strip_start};

verus! {

/// A 16-color terminal palette plus the named UI colors, each as a
/// `#RRGGBB` string.
pub struct ColorPalette {
    pub accent: String,
    pub cursor: String,
    pub foreground: String,
    pub background: String,
    pub selection_foreground: String,
    pub selection_background: String,
    /// ANSI colors 0–15.
    pub colors: [String; 16],
}

fn s(t: &str) -> (r: String)
    ensures
        r@ == t@,
{
    let mut r = String::new();
    push_str(&mut r, t);
    r
}

impl ColorPalette {
    /// The reference palette (COSMIC dark defaults) used in examples and tests.
    pub fn sample() -> (p: ColorPalette)
        ensures
            p.accent@ == "#63D1D6"@,
            p.cursor@ == "#FFFFFF"@,
            p.foreground@ == "#FFFFFF"@,
            p.background@ == "#1B1B1B"@,
            p.selection_foreground@ == "#1B1B1B"@,
            p.selection_background@ == "#FFFFFF"@,
            p.colors[0]@ == "#3B3B3B"@,
            p.colors[1]@ == "#FF6B6B"@,
            p.colors[2]@ == "#87D687"@,
            p.colors[3]@ == "#FFD93D"@,
            p.colors[4]@ == "#6B9FFF"@,
            p.colors[5]@ == "#B87DFF"@,
            p.colors[6]@ == "#63D1D6"@,
            p.colors[7]@ == "#D4D4D4"@,
            p.colors[8]@ == "#5A5A5A"@,
            p.colors[9]@ == "#FF6B6B"@,
            p.colors[10]@ == "#87D687"@,
            p.colors[11]@ == "#FFD93D"@,
            p.colors[12]@ == "#6B9FFF"@,
            p.colors[13]@ == "#B87DFF"@,
            p.colors[14]@ == "#63D1D6"@,
            p.colors[15]@ == "#E8E8E8"@,
    {
        ColorPalette {
            accent: s("#63D1D6"),
            cursor: s("#FFFFFF"),
            foreground: s("#FFFFFF"),
            background: s("#1B1B1B"),
            selection_foreground: s("#1B1B1B"),
            selection_background: s("#FFFFFF"),
            colors: [
                s("#3B3B3B"),
                s("#FF6B6B"),
                s("#87D687"),
                s("#FFD93D"),
                s("#6B9FFF"),
                s("#B87DFF"),
                s("#63D1D6"),
                s("#D4D4D4"),
                s("#5A5A5A"),
                s("#FF6B6B"),
                s("#87D687"),
                s("#FFD93D"),
                s("#6B9FFF"),
                s("#B87DFF"),
                s("#63D1D6"),
                s("#E8E8E8"),
            ],
        }
    }
}

/// An RGB color with 8-bit channels.
#[derive(Clone, Copy, PartialEq, Eq, Structural, Debug)]
pub struct Rgb {
    pub r: u8,
    pub g: u8,
    pub b: u8,
}

/// Pack three 8-bit channels into one `0xRRGGBB` integer.
pub fn pack_rgb(r: u8, g: u8, b: u8) -> (packed: u32)
    ensures
        packed == r as int * 65536 + g as int * 256 + b as int,
{
    (r as u32) * 65536 + (g as u32) * 256 + (b as u32)
}

/// The three channels of a packed `0xRRGGBB` integer (higher bits ignored).
pub fn unpack_rgb(packed: u32) -> (c: Rgb)
    ensures
        c.r == (packed / 65536) % 256,
        c.g == (packed / 256) % 256,
        c.b == packed % 256,
{
    Rgb {
        r: ((packed / 65536) % 256) as u8,
        g: ((packed / 256) % 256) as u8,
        b: (packed % 256) as u8,
    }
}

/// Unpacking a packed color gives its channels back.
pub proof fn lemma_unpack_pack(r: u8, g: u8, b: u8)
    ensures
        ({
            let p = r as int * 65536 + g as int * 256 + b as int;
            (p / 65536) % 256 == r && (p / 256) % 256 == g && p % 256 == b
        }),
{
    let p = r as int * 65536 + g as int * 256 + b as int;
    assert(p / 65536 == r as int) by (nonlinear_arith)
        requires
            p == r as int * 65536 + g as int * 256 + b as int,
            0 <= r < 256,
            0 <= g < 256,
            0 <= b < 256,
    ;
    assert(p / 256 == r as int * 256 + g as int) by (nonlinear_arith)
        requires
            p == r as int * 65536 + g as int * 256 + b as int,
            0 <= g < 256,
            0 <= b < 256,
            0 <= r,
    ;
    assert((r as int * 256 + g as int) % 256 == g as int) by (nonlinear_arith)
        requires
            0 <= g < 256,
            0 <= r,
    ;
    assert(p % 256 == b as int) by (nonlinear_arith)
        requires
            p == r as int * 65536 + g as int * 256 + b as int,
            0 <= b < 256,
            0 <= r,
            0 <= g,
    ;
}

pub open spec fn hex_digit(d: nat) -> char
    recommends
        d < 16,
{
    if d < 10 {
        (('0' as u32) + d) as char
    } else {
        (('A' as u32) + d - 10) as char
    }
}

/// Upper-case two-digit hex of a byte (`{:02X}`).
pub open spec fn hex_byte(v: u8) -> Seq<char> {
    seq![hex_digit((v / 16) as nat), hex_digit((v % 16) as nat)]
}

/// `#RRGGBB`, upper case.
pub open spec fn hex_color(c: Rgb) -> Seq<char> {
    seq!['#'] + hex_byte(c.r) + hex_byte(c.g) + hex_byte(c.b)
}

fn hex_digit_char(d: u8) -> (c: char)
    requires
        d < 16,
    ensures
        c == hex_digit(d as nat),
{
    if d < 10 {
        (48u8 + d) as char
    } else {
        (65u8 + d - 10) as char
    }
}

/// Format a color as `#RRGGBB` with upper-case digits.
pub fn rgb_to_hex(c: Rgb) -> (s: String)
    ensures
        s@ == hex_color(c),
{
    let mut s = String::new();
    s.push('#');
    s.push(hex_digit_char(c.r / 16));
    s.push(hex_digit_char(c.r % 16));
    s.push(hex_digit_char(c.g / 16));
    s.push(hex_digit_char(c.g % 16));
    s.push(hex_digit_char(c.b / 16));
    s.push(hex_digit_char(c.b % 16));
    assert(s@ =~= hex_color(c));
    s
}

/// Value of a hexadecimal digit (either case), if it is one.
pub open spec fn hex_value(c: char) -> Option<nat> {
    if '0' <= c <= '9' {
        Some((c as u32 - '0' as u32) as nat)
    } else if 'a' <= c <= 'f' {
        Some((c as u32 - 'a' as u32 + 10) as nat)
    } else if 'A' <= c <= 'F' {
        Some((c as u32 - 'A' as u32 + 10) as nat)
    } else {
        None
    }
}

/// The byte written as two hexadecimal digits, if both are digits.
pub open spec fn hex_pair(a: char, b: char) -> Option<u8> {
    match (hex_value(a), hex_value(b)) {
        (Some(x), Some(y)) => Some((x * 16 + y) as u8),
        _ => None,
    }
}

/// Exactly six hexadecimal digits.
pub open spec fn is_six_hex(h: Seq<char>) -> bool {
    h.len() == 6 && forall|i: int| 0 <= i < 6 ==> (#[trigger] hex_value(h[i])) is Some
}

/// `#RRGGBB` or `RRGGBB` (any number of leading `#`): the color when what
/// follows the `#`s is exactly six hexadecimal digits, else none.
pub open spec fn parse_hex(s: Seq<char>) -> Option<Rgb> {
    let h = strip_start(s, Strip::Hash);
    if h.len() != 6 {
        None
    } else {
        match (hex_pair(h[0], h[1]), hex_pair(h[2], h[3]), hex_pair(h[4], h[5])) {
            (Some(r), Some(g), Some(b)) => Some(Rgb { r, g, b }),
            _ => None,
        }
    }
}

fn hex_value_exec(c: char) -> (r: Option<u8>)
    ensures
        match hex_value(c) {
            Some(v) => r == Some(v as u8) && v < 16,
            None => r is None,
        },
{
    if '0' <= c && c <= '9' {
        Some((c as u32 - '0' as u32) as u8)
    } else if 'a' <= c && c <= 'f' {
        Some((c as u32 - 'a' as u32 + 10) as u8)
    } else if 'A' <= c && c <= 'F' {
        Some((c as u32 - 'A' as u32 + 10) as u8)
    } else {
        None
    }
}

fn hex_pair_exec(a: char, b: char) -> (r: Option<u8>)
    ensures
        r == hex_pair(a, b),
{
    match (hex_value_exec(a), hex_value_exec(b)) {
        (Some(x), Some(y)) => Some(x * 16 + y),
        _ => None,
    }
}

/// Parse `#RRGGBB` (or `RRGGBB`) into its channels.
pub fn hex_to_rgb(s: &str) -> (r: Option<Rgb>)
    ensures
        r == parse_hex(s@),
        r is Some <==> is_six_hex(strip_start(s@, Strip::Hash)),
{
    proof {
        lemma_parse_hex_some(s@);
    }
    let v = chars_of(s);
    let mut a: usize = 0;
    assert(v@.skip(0) == v@);
    while a < v.len() && v[a] == '#'
        invariant
            a <= v@.len(),
            v@ == s@,
            strip_start(v@, Strip::Hash) == strip_start(v@.skip(a as int), Strip::Hash),
        decreases v.len() - a,
    {
        assert(v@.skip(a as int).drop_first() == v@.skip(a + 1));
        a = a + 1;
    }
    assert(strip_start(v@.skip(a as int), Strip::Hash) == v@.skip(a as int));
    if v.len() - a != 6 {
        return None;
    }
    let ghost h = v@.skip(a as int);
    assert(h[0] == v[a as int] && h[1] == v[a + 1] && h[2] == v[a + 2]);
    assert(h[3] == v[a + 3] && h[4] == v[a + 4] && h[5] == v[a + 5]);
    match (
        hex_pair_exec(v[a], v[a + 1]),
        hex_pair_exec(v[a + 2], v[a + 3]),
        hex_pair_exec(v[a + 4], v[a + 5]),
    ) {
        (Some(r), Some(g), Some(b)) => Some(Rgb { r, g, b }),
        _ => None,
    }
}

/// The parse gives a color exactly on six hexadecimal digits.
pub proof fn lemma_parse_hex_some(s: Seq<char>)
    ensures
        parse_hex(s) is Some <==> is_six_hex(strip_start(s, Strip::Hash)),
{
    let h = strip_start(s, Strip::Hash);
    if h.len() == 6 {
        if parse_hex(s) is Some {
            assert forall|i: int| 0 <= i < 6 implies (#[trigger] hex_value(h[i])) is Some by {
                assert(hex_pair(h[0], h[1]) is Some);
                assert(hex_pair(h[2], h[3]) is Some);
                assert(hex_pair(h[4], h[5]) is Some);
            }
        }
        if is_six_hex(h) {
            assert(hex_value(h[0]) is Some && hex_value(h[1]) is Some && hex_value(h[2]) is Some);
            assert(hex_value(h[3]) is Some && hex_value(h[4]) is Some && hex_value(h[5]) is Some);
        }
    }
}

proof fn lemma_hex_digit_value(d: nat)
    requires
        d < 16,
    ensures
        hex_value(hex_digit(d)) == Some(d),
        hex_digit(d) != '#',
{
}

/// Reading back a formatted color gives the color.
pub proof fn lemma_parse_hex_color(c: Rgb)
    ensures
        parse_hex(hex_color(c)) == Some(c),
{
    let s = hex_color(c);
    lemma_hex_digit_value((c.r / 16) as nat);
    lemma_hex_digit_value((c.r % 16) as nat);
    lemma_hex_digit_value((c.g / 16) as nat);
    lemma_hex_digit_value((c.g % 16) as nat);
    lemma_hex_digit_value((c.b / 16) as nat);
    lemma_hex_digit_value((c.b % 16) as nat);
    let h = s.drop_first();
    assert(s.drop_first() == h);
    assert(h[0] != '#');
    assert(strip_start(h, Strip::Hash) == h);
    assert(strip_start(s, Strip::Hash) == h);
    assert(h.len() == 6);
    assert((c.r / 16) * 16 + c.r % 16 == c.r);
    assert((c.g / 16) * 16 + c.g % 16 == c.g);
    assert((c.b / 16) * 16 + c.b % 16 == c.b);
}

} // verus!
