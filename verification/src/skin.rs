//! Tray appearance. Scoring never branches on this; rasterizing is done by the
//! host.

use vstd::prelude::*;

use crate::color::Srgb8;
use crate::text::same_text;

verus! {

/// Default menu-bar raster size (2x a 22 pt slot).
pub const DEFAULT_SIZE: u32 = 44;

/// RGBA8 pixmap (unpremultiplied for opaque fills).
#[derive(Debug, Clone, PartialEq, Eq)]
pub struct RgbaIcon {
    /// Width in pixels.
    pub width: u32,
    /// Height in pixels.
    pub height: u32,
    /// `width * height * 4` bytes, row-major RGBA.
    pub rgba: Vec<u8>,
}

/// Tray appearance. Scoring never branches on this.
#[derive(Debug, Clone, Copy, PartialEq, Eq, Hash, Structural)]
pub enum Skin {
    /// Default filled circle.
    Dot,
    /// Retro 5x5 LED matrix in the painted status color.
    Matrix,
    /// Rounded square in the painted color with an ASCII face (kawaii).
    Kawaii,
    /// Daisy: status-colored petals, cream heart.
    Flower,
    /// Four-point spark in the painted color.
    Spark,
    /// Donut whose stroke thickness follows the painted score.
    Ring,
    /// Four bars; how many are lit follows the painted score.
    Bars,
}

/// All skins in menu order.
pub open spec fn all_skins() -> Seq<Skin> {
    seq![Skin::Dot, Skin::Matrix, Skin::Kawaii, Skin::Flower, Skin::Spark, Skin::Ring, Skin::Bars]
}

/// Config / TOML key of a skin.
pub open spec fn skin_key(s: Skin) -> Seq<char> {
    match s {
        Skin::Dot => "dot"@,
        Skin::Matrix => "matrix"@,
        Skin::Kawaii => "kawaii"@,
        Skin::Flower => "flower"@,
        Skin::Spark => "spark"@,
        Skin::Ring => "ring"@,
        Skin::Bars => "bars"@,
    }
}

/// Appearance-menu label of a skin.
pub open spec fn skin_label(s: Skin) -> Seq<char> {
    match s {
        Skin::Dot => "Dot"@,
        Skin::Matrix => "Matrix"@,
        Skin::Kawaii => "Kawaii"@,
        Skin::Flower => "Flower"@,
        Skin::Spark => "Spark"@,
        Skin::Ring => "Ring"@,
        Skin::Bars => "Bars"@,
    }
}

/// The skin whose key is `k`, if any.
pub open spec fn skin_of_key(k: Seq<char>) -> Option<Skin> {
    if k == "dot"@ {
        Some(Skin::Dot)
    } else if k == "matrix"@ {
        Some(Skin::Matrix)
    } else if k == "kawaii"@ {
        Some(Skin::Kawaii)
    } else if k == "flower"@ {
        Some(Skin::Flower)
    } else if k == "spark"@ {
        Some(Skin::Spark)
    } else if k == "ring"@ {
        Some(Skin::Ring)
    } else if k == "bars"@ {
        Some(Skin::Bars)
    } else {
        None
    }
}

impl Skin {
    /// All skins in menu order.
    pub fn all() -> (v: [Skin; 7])
        ensures
            v@ == all_skins(),
    {
        let v = [Skin::Dot, Skin::Matrix, Skin::Kawaii, Skin::Flower, Skin::Spark, Skin::Ring, Skin::Bars];
        assert(v@ =~= all_skins());
        v
    }

    /// Config / TOML key (`snake_case`).
    pub fn key(self) -> (k: &'static str)
        ensures
            k@ == skin_key(self),
    {
        match self {
            Skin::Dot => "dot",
            Skin::Matrix => "matrix",
            Skin::Kawaii => "kawaii",
            Skin::Flower => "flower",
            Skin::Spark => "spark",
            Skin::Ring => "ring",
            Skin::Bars => "bars",
        }
    }

    /// Inverse of [`Skin::key`]. Unknown keys yield `None`.
    pub fn from_key(key: &str) -> (s: Option<Skin>)
        ensures
            s == skin_of_key(key@),
    {
        if same_text(key, "dot") {
            Some(Skin::Dot)
        } else if same_text(key, "matrix") {
            Some(Skin::Matrix)
        } else if same_text(key, "kawaii") {
            Some(Skin::Kawaii)
        } else if same_text(key, "flower") {
            Some(Skin::Flower)
        } else if same_text(key, "spark") {
            Some(Skin::Spark)
        } else if same_text(key, "ring") {
            Some(Skin::Ring)
        } else if same_text(key, "bars") {
            Some(Skin::Bars)
        } else {
            None
        }
    }

    /// Appearance-menu label (English).
    pub fn menu_label(self) -> (l: &'static str)
        ensures
            l@ == skin_label(self),
    {
        match self {
            Skin::Dot => "Dot",
            Skin::Matrix => "Matrix",
            Skin::Kawaii => "Kawaii",
            Skin::Flower => "Flower",
            Skin::Spark => "Spark",
            Skin::Ring => "Ring",
            Skin::Bars => "Bars",
        }
    }
}

/// Every skin round-trips through its key.
pub proof fn law_key_round_trip(s: Skin)
    ensures
        skin_of_key(skin_key(s)) == Some(s),
{
    reveal_strlit("dot");
    reveal_strlit("matrix");
    reveal_strlit("kawaii");
    reveal_strlit("flower");
    reveal_strlit("spark");
    reveal_strlit("ring");
    reveal_strlit("bars");
    // Keys of different skins differ in their first character.
    assert("dot"@[0] == 'd' && "matrix"@[0] == 'm' && "kawaii"@[0] == 'k' && "flower"@[0] == 'f');
    assert("spark"@[0] == 's' && "ring"@[0] == 'r' && "bars"@[0] == 'b');
}

/// Dim grey used while probing is paused so we never imply live WAN truth.
pub fn paused_color() -> (c: Srgb8)
    ensures
        c == (Srgb8 { r: 0x86, g: 0x86, b: 0x8F }),
{
    Srgb8 { r: 0x86, g: 0x86, b: 0x8F }
}

} // verus!
