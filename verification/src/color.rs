//! Display colors as plain RGB triples, one per piece kind.

use vstd::prelude::*;

verus! {

/// An RGB color. The engine only records which color sits in each board
/// cell; turning it into a screen pixel is the presentation layer's job.
#[derive(Debug, Clone, Copy, PartialEq, Eq, Structural)]
pub struct Color {
    pub r: u8,
    pub g: u8,
    pub b: u8,
}

impl Color {
    pub fn new(r: u8, g: u8, b: u8) -> (c: Color)
        ensures
            c == (Color { r, g, b }),
    {
        Color { r, g, b }
    }
}

} // verus!
