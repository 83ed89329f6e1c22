use vstd::prelude::*;

verus! {

/// The colours of the game's palette.
#[derive(Clone, Copy, PartialEq, Eq, Structural, Debug)]
pub enum Palette {
    White,
    Black,
    Green,
    LightGreen,
    Brown,
    Blue,
    LightBlue,
    Red,
    Orange,
    Yellow,
    Purple,
    Cyan,
    DarkCyan,
}

impl Palette {
    /// The colour as `0xRRGGBB`.
    pub open spec fn spec_value(self) -> u32 {
        match self {
            Palette::White => 0xD2DBDB,
            Palette::Black => 0x171B1F,
            Palette::Green => 0x2E862E,
            Palette::LightGreen => 0x1AAF1A,
            Palette::Brown => 0x664D3C,
            Palette::Blue => 0x294E94,
            Palette::LightBlue => 0x608ED3,
            Palette::Red => 0xA83A3A,
            Palette::Orange => 0xE79519,
            Palette::Yellow => 0xEBCC21,
            Palette::Purple => 0xB31DB3,
            Palette::Cyan => 0x0EC9E2,
            Palette::DarkCyan => 0x2C7983,
        }
    }

    /// The colour as `0xRRGGBB`.
    pub fn value(self) -> (r: u32)
        ensures
            r == self.spec_value(),
    {
        match self {
            Palette::White => 0xD2DBDB,
            Palette::Black => 0x171B1F,
            Palette::Green => 0x2E862E,
            Palette::LightGreen => 0x1AAF1A,
            Palette::Brown => 0x664D3C,
            Palette::Blue => 0x294E94,
            Palette::LightBlue => 0x608ED3,
            Palette::Red => 0xA83A3A,
            Palette::Orange => 0xE79519,
            Palette::Yellow => 0xEBCC21,
            Palette::Purple => 0xB31DB3,
            Palette::Cyan => 0x0EC9E2,
            Palette::DarkCyan => 0x2C7983,
        }
    }
}

impl From<Palette> for u32 {
    fn from(val: Palette) -> (r: u32)
        ensures
            r == val.spec_value(),
    {
        val.value()
    }
}

impl vstd::std_specs::convert::FromSpecImpl<Palette> for u32 {
    open spec fn obeys_from_spec() -> bool {
        true
    }

    open spec fn from_spec(v: Palette) -> u32 {
        v.spec_value()
    }
}

/// Packs three channels into `0xRRGGBB`.
pub fn hex(r: u8, g: u8, b: u8) -> (c: u32)
    ensures
        c == r as int * 65536 + g as int * 256 + b as int,
{
    let (r32, g32, b32) = (r as u32, g as u32, b as u32);
    assert(r32 << 16u32 == r32 * 65536 && g32 << 8u32 == g32 * 256) by (bit_vector)
        requires
            r32 < 256,
            g32 < 256,
    ;
    (r32 << 16) + (g32 << 8) + b32
}

} // verus!
