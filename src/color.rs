use vstd::prelude::*;

verus! {

/// An opaque 8-bit color, the shaded result of one object at one pixel.
#[derive(Clone, Copy, Debug, PartialEq, Eq, Structural)]
pub struct Rgb8 {
    pub r: u8,
    pub g: u8,
    pub b: u8,
}

/// An 8-bit color with an alpha channel: what a raster stores per pixel.
#[derive(Clone, Copy, Debug, PartialEq, Eq, Structural)]
pub struct Rgba8 {
    pub r: u8,
    pub g: u8,
    pub b: u8,
    pub a: u8,
}

/// Red, green and blue channel of the background.
pub const BACKGROUND_GRAY: u8 = 70;

/// Alpha channel of the background.
pub const BACKGROUND_ALPHA: u8 = 1;

/// The dark gray written where no object is seen.
pub open spec fn spec_background() -> Rgba8 {
    Rgba8 { r: BACKGROUND_GRAY, g: BACKGROUND_GRAY, b: BACKGROUND_GRAY, a: BACKGROUND_ALPHA }
}

/// The dark gray written where no object is seen: (70, 70, 70) with alpha 1.
pub fn background() -> (c: Rgba8)
    ensures
        c == spec_background(),
{
    Rgba8 { r: BACKGROUND_GRAY, g: BACKGROUND_GRAY, b: BACKGROUND_GRAY, a: BACKGROUND_ALPHA }
}

impl Rgb8 {
    pub fn new(r: u8, g: u8, b: u8) -> (c: Rgb8)
        ensures
            c.r == r,
            c.g == g,
            c.b == b,
    {
        Rgb8 { r, g, b }
    }

    /// The same color, fully opaque.
    pub open spec fn spec_to_rgba(self) -> Rgba8 {
        Rgba8 { r: self.r, g: self.g, b: self.b, a: 255 }
    }

    /// The same color with the alpha channel at its maximum, 255.
    pub fn to_rgba(&self) -> (c: Rgba8)
        ensures
            c == self.spec_to_rgba(),
    {
        Rgba8 { r: self.r, g: self.g, b: self.b, a: 255 }
    }
}

impl Rgba8 {
    pub fn new(r: u8, g: u8, b: u8, a: u8) -> (c: Rgba8)
        ensures
            c.r == r,
            c.g == g,
            c.b == b,
            c.a == a,
    {
        Rgba8 { r, g, b, a }
    }

    /// Whether this is the background color.
    pub fn is_background(&self) -> (res: bool)
        ensures
            res == (*self == spec_background()),
    {
        self.r == BACKGROUND_GRAY && self.g == BACKGROUND_GRAY && self.b == BACKGROUND_GRAY
            && self.a == BACKGROUND_ALPHA
    }
}

} // verus!
