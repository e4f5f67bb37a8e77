//! Status colors. Score-to-color mixing (Oklab) is floating-point work done by
//! the host; the named stops and hex formatting live here.

use vstd::prelude::*;
use vstd::string::StringExecFns;

verus! {

/// 8-bit sRGB pixel for the tray rasterizer.
#[derive(Debug, Clone, Copy, PartialEq, Eq, Hash, Structural)]
pub struct Srgb8 {
    /// Red 0-255.
    pub r: u8,
    /// Green 0-255.
    pub g: u8,
    /// Blue 0-255.
    pub b: u8,
}

/// Upper-case hex digit of a nibble.
pub open spec fn hex_digit(n: u8) -> char {
    if n < 10 {
        (48 + n) as char
    } else {
        (55 + n) as char
    }
}

/// Two upper-case hex digits of a byte.
pub open spec fn hex_byte(v: u8) -> Seq<char> {
    seq![hex_digit(v / 16), hex_digit(v % 16)]
}

/// `#RRGGBB`, upper case.
pub open spec fn hex_color(c: Srgb8) -> Seq<char> {
    seq!['#'] + hex_byte(c.r) + hex_byte(c.g) + hex_byte(c.b)
}

fn hex_digit_str(n: u8) -> (s: &'static str)
    requires
        n < 16,
    ensures
        s@ == seq![hex_digit(n)],
{
    let s = match n {
        0 => "0",
        1 => "1",
        2 => "2",
        3 => "3",
        4 => "4",
        5 => "5",
        6 => "6",
        7 => "7",
        8 => "8",
        9 => "9",
        10 => "A",
        11 => "B",
        12 => "C",
        13 => "D",
        14 => "E",
        _ => "F",
    };
    proof {
        reveal_strlit("0");
        reveal_strlit("1");
        reveal_strlit("2");
        reveal_strlit("3");
        reveal_strlit("4");
        reveal_strlit("5");
        reveal_strlit("6");
        reveal_strlit("7");
        reveal_strlit("8");
        reveal_strlit("9");
        reveal_strlit("A");
        reveal_strlit("B");
        reveal_strlit("C");
        reveal_strlit("D");
        reveal_strlit("E");
        reveal_strlit("F");
    }
    assert(s@ =~= seq![hex_digit(n)]);
    s
}

fn push_hex_byte(out: &mut String, v: u8)
    ensures
        final(out)@ == old(out)@ + hex_byte(v),
{
    out.append(hex_digit_str(v / 16));
    out.append(hex_digit_str(v % 16));
    assert(final(out)@ =~= old(out)@ + hex_byte(v));
}

impl Srgb8 {
    /// Construct from 8-bit channels.
    pub fn new(r: u8, g: u8, b: u8) -> (c: Srgb8)
        ensures
            c == (Srgb8 { r, g, b }),
    {
        Srgb8 { r, g, b }
    }

    /// `#RRGGBB`.
    pub fn to_hex(self) -> (s: String)
        ensures
            s@ == hex_color(self),
    {
        let mut out = String::from_str("#");
        proof {
            reveal_strlit("#");
        }
        push_hex_byte(&mut out, self.r);
        push_hex_byte(&mut out, self.g);
        push_hex_byte(&mut out, self.b);
        assert(out@ =~= hex_color(self));
        out
    }
}

/// Named-band colors, violet to blue: none, bad, medium, ok, ultra.
pub open spec fn band_stops() -> Seq<Srgb8> {
    seq![
        Srgb8 { r: 0x7C, g: 0x3A, b: 0xED },
        Srgb8 { r: 0xEF, g: 0x44, b: 0x44 },
        Srgb8 { r: 0xF9, g: 0x73, b: 0x16 },
        Srgb8 { r: 0x22, g: 0xC5, b: 0x5E },
        Srgb8 { r: 0x3B, g: 0x82, b: 0xF6 },
    ]
}

/// Named-band colors, violet to blue. Rendering interpolates by score in
/// Oklab; skins consume the mixed color, not these stops directly.
pub fn band_stop_colors() -> (c: [Srgb8; 5])
    ensures
        c@ == band_stops(),
{
    let c = [
        Srgb8 { r: 0x7C, g: 0x3A, b: 0xED },
        Srgb8 { r: 0xEF, g: 0x44, b: 0x44 },
        Srgb8 { r: 0xF9, g: 0x73, b: 0x16 },
        Srgb8 { r: 0x22, g: 0xC5, b: 0x5E },
        Srgb8 { r: 0x3B, g: 0x82, b: 0xF6 },
    ];
    assert(c@ =~= band_stops());
    c
}

/// Stop `i`, clamped to the last (ultra) stop.
pub fn stop_color(i: usize) -> (c: Srgb8)
    ensures
        c == band_stops()[if i < 5 { i as int } else { 4 }],
{
    let stops = band_stop_colors();
    let j = if i < 4 { i } else { 4 };
    stops[j]
}

} // verus!
