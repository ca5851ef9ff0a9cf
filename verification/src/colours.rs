use vstd::prelude::*;

verus! {

/// An LED colour, one byte per channel.
#[derive(Clone, Copy, PartialEq, Eq, Structural, Debug)]
pub struct Rgb {
    pub r: u8,
    pub g: u8,
    pub b: u8,
}

impl Rgb {
    /// The palette's black.
    pub fn black() -> (c: Rgb)
        ensures
            c == (Rgb { r: 0, g: 0, b: 0 }),
    {
        Rgb { r: 0, g: 0, b: 0 }
    }

    /// The palette's red.
    pub fn red() -> (c: Rgb)
        ensures
            c == (Rgb { r: 32, g: 0, b: 0 }),
    {
        Rgb { r: 32, g: 0, b: 0 }
    }

    /// The palette's green.
    pub fn green() -> (c: Rgb)
        ensures
            c == (Rgb { r: 0, g: 32, b: 0 }),
    {
        Rgb { r: 0, g: 32, b: 0 }
    }

    /// The palette's blue.
    pub fn blue() -> (c: Rgb)
        ensures
            c == (Rgb { r: 0, g: 0, b: 32 }),
    {
        Rgb { r: 0, g: 0, b: 32 }
    }

    /// The palette's yellow.
    pub fn yellow() -> (c: Rgb)
        ensures
            c == (Rgb { r: 32, g: 16, b: 0 }),
    {
        Rgb { r: 32, g: 16, b: 0 }
    }

    /// The palette's cyan.
    pub fn cyan() -> (c: Rgb)
        ensures
            c == (Rgb { r: 0, g: 24, b: 24 }),
    {
        Rgb { r: 0, g: 24, b: 24 }
    }

    /// The palette's magenta.
    pub fn magenta() -> (c: Rgb)
        ensures
            c == (Rgb { r: 24, g: 0, b: 24 }),
    {
        Rgb { r: 24, g: 0, b: 24 }
    }

    /// The palette's white.
    pub fn white() -> (c: Rgb)
        ensures
            c == (Rgb { r: 24, g: 24, b: 24 }),
    {
        Rgb { r: 24, g: 24, b: 24 }
    }
}

} // verus!
