//! The color palette the core hands to its renderer.
//!
//! The core never draws; it only tags tiles, entities and log messages with a
//! palette entry.  [`Color::rgb`] gives the renderer the concrete channel
//! values for each entry.

use vstd::prelude::*;

verus! {

/// A palette entry.  Tiles, entities and log messages carry one of these;
/// the renderer turns it into concrete channels via [`Color::rgb`].
#[derive(Clone, Copy, PartialEq, Eq, Structural, Debug)]
pub enum Color {
    Black,
    White,
    Red,
    LightRed,
    DarkRed,
    DarkerRed,
    Green,
    LightGreen,
    DesaturatedGreen,
    DarkerGreen,
    Orange,
    LightBlue,
    LightViolet,
    /// Wall tile outside the field of view.
    DarkWall,
    /// Wall tile inside the field of view.
    LightWall,
    /// Floor tile outside the field of view.
    DarkGround,
    /// Floor tile inside the field of view.
    LightGround,
}

impl Color {
    /// The red, green and blue channels of this palette entry.
    pub fn rgb(&self) -> (c: (u8, u8, u8))
        ensures
            c == self.spec_rgb(),
    {
        match self {
            Color::Black => (0, 0, 0),
            Color::White => (255, 255, 255),
            Color::Red => (255, 0, 0),
            Color::LightRed => (255, 63, 63),
            Color::DarkRed => (191, 0, 0),
            Color::DarkerRed => (127, 0, 0),
            Color::Green => (0, 255, 0),
            Color::LightGreen => (63, 255, 63),
            Color::DesaturatedGreen => (63, 127, 63),
            Color::DarkerGreen => (0, 127, 0),
            Color::Orange => (255, 127, 0),
            Color::LightBlue => (63, 63, 255),
            Color::LightViolet => (159, 63, 255),
            Color::DarkWall => (0, 0, 100),
            Color::LightWall => (130, 110, 50),
            Color::DarkGround => (50, 50, 150),
            Color::LightGround => (200, 180, 50),
        }
    }

    /// The channels of each palette entry, as a mathematical function.
    pub open spec fn spec_rgb(self) -> (u8, u8, u8) {
        match self {
            Color::Black => (0, 0, 0),
            Color::White => (255, 255, 255),
            Color::Red => (255, 0, 0),
            Color::LightRed => (255, 63, 63),
            Color::DarkRed => (191, 0, 0),
            Color::DarkerRed => (127, 0, 0),
            Color::Green => (0, 255, 0),
            Color::LightGreen => (63, 255, 63),
            Color::DesaturatedGreen => (63, 127, 63),
            Color::DarkerGreen => (0, 127, 0),
            Color::Orange => (255, 127, 0),
            Color::LightBlue => (63, 63, 255),
            Color::LightViolet => (159, 63, 255),
            Color::DarkWall => (0, 0, 100),
            Color::LightWall => (130, 110, 50),
            Color::DarkGround => (50, 50, 150),
            Color::LightGround => (200, 180, 50),
        }
    }
}

} // verus!
