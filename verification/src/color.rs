//! The catalogue of filter-colour pairs.

use vstd::prelude::*;

verus! {

/// The intensity that stands for full brightness. A colour component `n`
/// means the fraction `n / FULL`.
pub const FULL: u8 = 255;

/// An RGB colour. Each component is the numerator of an intensity between
/// zero and one, over the denominator [`FULL`].
#[derive(Clone, Copy, Debug, PartialEq, Eq, Structural)]
pub struct Color {
    pub red: u8,
    pub green: u8,
    pub blue: u8,
}

/// The two filter colours of an anaglyph: one for each eye.
#[derive(Clone, Copy, Debug, PartialEq, Eq, Structural)]
pub struct ColorPair {
    pub left: Color,
    pub right: Color,
}

/// The anaglyph colour schemes.
#[derive(Clone, Copy, Debug, PartialEq, Eq, Structural)]
pub enum Coloring {
    RedGreen,
    RedBlue,
    RedCyan,
    Anachrome,
    Mirachrome,
    Trioscopic,
    Colorcode3D,
    MagentaCyan,
}

/// Pure red.
pub open spec fn pure_red() -> Color {
    Color { red: 255, green: 0, blue: 0 }
}

/// Pure green.
pub open spec fn pure_green() -> Color {
    Color { red: 0, green: 255, blue: 0 }
}

/// Pure blue.
pub open spec fn pure_blue() -> Color {
    Color { red: 0, green: 0, blue: 255 }
}

/// Pure cyan.
pub open spec fn pure_cyan() -> Color {
    Color { red: 0, green: 255, blue: 255 }
}

/// Dark red.
pub open spec fn dark_red() -> Color {
    Color { red: 204, green: 0, blue: 0 }
}

/// A pale cyan.
pub open spec fn cyan() -> Color {
    Color { red: 153, green: 204, blue: 255 }
}

/// Pure magenta.
pub open spec fn pure_magenta() -> Color {
    Color { red: 255, green: 0, blue: 255 }
}

/// Amber.
pub open spec fn amber() -> Color {
    Color { red: 255, green: 191, blue: 0 }
}

/// Dark blue.
pub open spec fn dark_blue() -> Color {
    Color { red: 0, green: 0, blue: 153 }
}

impl Color {
    /// The colour with the given components.
    pub fn new(red: u8, green: u8, blue: u8) -> (c: Color)
        ensures
            c.red == red,
            c.green == green,
            c.blue == blue,
    {
        Color { red, green, blue }
    }

    /// The component that weighs channel `channel` (0 red, 1 green, 2 blue).
    pub open spec fn channel(self, channel: int) -> u8 {
        if channel == 0 {
            self.red
        } else if channel == 1 {
            self.green
        } else {
            self.blue
        }
    }

    /// The component that weighs channel `channel` (0 red, 1 green, 2 blue).
    pub fn weight(&self, channel: usize) -> (w: u8)
        requires
            channel < 3,
        ensures
            w == self.channel(channel as int),
            w <= FULL,
    {
        if channel == 0 {
            self.red
        } else if channel == 1 {
            self.green
        } else {
            self.blue
        }
    }
}

impl Coloring {
    /// The pair of filter colours that the scheme stands for.
    pub open spec fn spec_pair(self) -> ColorPair {
        match self {
            Coloring::RedGreen => ColorPair { left: pure_red(), right: pure_green() },
            Coloring::RedBlue => ColorPair { left: pure_red(), right: pure_blue() },
            Coloring::RedCyan => ColorPair { left: pure_red(), right: pure_cyan() },
            Coloring::Anachrome => ColorPair { left: dark_red(), right: cyan() },
            Coloring::Mirachrome => ColorPair { left: dark_red(), right: cyan() },
            Coloring::Trioscopic => ColorPair { left: pure_green(), right: pure_magenta() },
            Coloring::Colorcode3D => ColorPair { left: amber(), right: dark_blue() },
            Coloring::MagentaCyan => ColorPair { left: pure_magenta(), right: pure_cyan() },
        }
    }

    /// The pair of filter colours that the scheme stands for.
    pub fn pair(&self) -> (p: ColorPair)
        ensures
            p == self.spec_pair(),
    {
        let (left, right): (Color, Color) = match self {
            Coloring::RedGreen => (Color::new(255, 0, 0), Color::new(0, 255, 0)),
            Coloring::RedBlue => (Color::new(255, 0, 0), Color::new(0, 0, 255)),
            Coloring::RedCyan => (Color::new(255, 0, 0), Color::new(0, 255, 255)),
            Coloring::Anachrome => (Color::new(204, 0, 0), Color::new(153, 204, 255)),
            Coloring::Mirachrome => (Color::new(204, 0, 0), Color::new(153, 204, 255)),
            Coloring::Trioscopic => (Color::new(0, 255, 0), Color::new(255, 0, 255)),
            Coloring::Colorcode3D => (Color::new(255, 191, 0), Color::new(0, 0, 153)),
            Coloring::MagentaCyan => (Color::new(255, 0, 255), Color::new(0, 255, 255)),
        };
        ColorPair { left, right }
    }
}

/// Every component of either colour of a scheme is an intensity between
/// zero and one: a numerator between 0 and [`FULL`].
pub proof fn lemma_intensities_normalized(coloring: Coloring, channel: int)
    ensures
        0 <= coloring.spec_pair().left.channel(channel) <= FULL,
        0 <= coloring.spec_pair().right.channel(channel) <= FULL,
{
}

/// Anachrome and Mirachrome are two names for one pair of colours.
pub proof fn lemma_anachrome_is_mirachrome()
    ensures
        Coloring::Anachrome.spec_pair() == Coloring::Mirachrome.spec_pair(),
{
}

} // verus!
