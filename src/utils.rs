use vstd::prelude::*;

verus! {

/// Select Graphic Rendition attributes understood by ANSI terminals.
#[derive(Clone, Copy, PartialEq, Eq, Debug, Structural)]
pub enum SGR {
    Reset,
    Bold,
    Light,
    Italic,
    Underline,
    Strike,
    BlackFG,
    RedFG,
    GreenFG,
    YellowFG,
    BlueFG,
    MagentaFG,
    CyanFG,
    WhiteFG,
    BlackBG,
    RedBG,
    GreenBG,
    YellowBG,
    BlueBG,
    MagentaBG,
    CyanBG,
    WhiteBG,
    BrightBlackFG,
    BrightRedFG,
    BrightGreenFG,
    BrightYellowFG,
    BrightBlueFG,
    BrightMagentaFG,
    BrightCyanFG,
    BrightWhiteFG,
    BrightBlackBG,
    BrightRedBG,
    BrightGreenBG,
    BrightYellowBG,
    BrightBlueBG,
    BrightMagentaBG,
    BrightCyanBG,
    BrightWhiteBG,
}

/// The numeric attribute code that the terminal receives for an attribute.
pub open spec fn sgr_code(c: SGR) -> u8 {
    match c {
        SGR::Reset => 0,
        SGR::Bold => 1,
        SGR::Light => 2,
        SGR::Italic => 3,
        SGR::Underline => 4,
        SGR::Strike => 9,
        SGR::BlackFG => 30,
        SGR::RedFG => 31,
        SGR::GreenFG => 32,
        SGR::YellowFG => 33,
        SGR::BlueFG => 34,
        SGR::MagentaFG => 35,
        SGR::CyanFG => 36,
        SGR::WhiteFG => 37,
        SGR::BlackBG => 40,
        SGR::RedBG => 41,
        SGR::GreenBG => 42,
        SGR::YellowBG => 43,
        SGR::BlueBG => 44,
        SGR::MagentaBG => 45,
        SGR::CyanBG => 46,
        SGR::WhiteBG => 47,
        SGR::BrightBlackFG => 90,
        SGR::BrightRedFG => 91,
        SGR::BrightGreenFG => 92,
        SGR::BrightYellowFG => 93,
        SGR::BrightBlueFG => 94,
        SGR::BrightMagentaFG => 95,
        SGR::BrightCyanFG => 96,
        SGR::BrightWhiteFG => 97,
        SGR::BrightBlackBG => 100,
        SGR::BrightRedBG => 101,
        SGR::BrightGreenBG => 102,
        SGR::BrightYellowBG => 103,
        SGR::BrightBlueBG => 104,
        SGR::BrightMagentaBG => 105,
        SGR::BrightCyanBG => 106,
        SGR::BrightWhiteBG => 107,
    }
}

impl SGR {
    /// The attribute's numeric code.
    pub fn code(self) -> (r: u8)
        ensures
            r == sgr_code(self),
    {
        match self {
            SGR::Reset => 0,
            SGR::Bold => 1,
            SGR::Light => 2,
            SGR::Italic => 3,
            SGR::Underline => 4,
            SGR::Strike => 9,
            SGR::BlackFG => 30,
            SGR::RedFG => 31,
            SGR::GreenFG => 32,
            SGR::YellowFG => 33,
            SGR::BlueFG => 34,
            SGR::MagentaFG => 35,
            SGR::CyanFG => 36,
            SGR::WhiteFG => 37,
            SGR::BlackBG => 40,
            SGR::RedBG => 41,
            SGR::GreenBG => 42,
            SGR::YellowBG => 43,
            SGR::BlueBG => 44,
            SGR::MagentaBG => 45,
            SGR::CyanBG => 46,
            SGR::WhiteBG => 47,
            SGR::BrightBlackFG => 90,
            SGR::BrightRedFG => 91,
            SGR::BrightGreenFG => 92,
            SGR::BrightYellowFG => 93,
            SGR::BrightBlueFG => 94,
            SGR::BrightMagentaFG => 95,
            SGR::BrightCyanFG => 96,
            SGR::BrightWhiteFG => 97,
            SGR::BrightBlackBG => 100,
            SGR::BrightRedBG => 101,
            SGR::BrightGreenBG => 102,
            SGR::BrightYellowBG => 103,
            SGR::BrightBlueBG => 104,
            SGR::BrightMagentaBG => 105,
            SGR::BrightCyanBG => 106,
            SGR::BrightWhiteBG => 107,
        }
    }
}

impl From<SGR> for u8 {
    fn from(c: SGR) -> (r: u8) {
        c.code()
    }
}

impl vstd::std_specs::convert::FromSpecImpl<SGR> for u8 {
    open spec fn obeys_from_spec() -> bool {
        true
    }

    open spec fn from_spec(v: SGR) -> u8 {
        sgr_code(v)
    }
}

/// A point of the board: `x` is the column, `y` the row.
#[derive(Clone, Copy, PartialEq, Eq, Debug, Structural)]
pub struct Uvec2 {
    pub x: usize,
    pub y: usize,
}

impl Uvec2 {
    pub fn new(x: usize, y: usize) -> (r: Self)
        ensures
            r.x == x,
            r.y == y,
    {
        Self { x, y }
    }

    /// Component-wise sum of two points.
    pub fn add(self, rhs: Self) -> (r: Self)
        requires
            self.x + rhs.x <= usize::MAX,
            self.y + rhs.y <= usize::MAX,
        ensures
            r.x == self.x + rhs.x,
            r.y == self.y + rhs.y,
    {
        Self { x: self.x + rhs.x, y: self.y + rhs.y }
    }
}

/// A rectangle's extent in terminal cells.
#[derive(Clone, Copy, PartialEq, Eq, Debug, Structural)]
pub struct Size {
    pub rows: u16,
    pub cols: u16,
}

} // verus!
