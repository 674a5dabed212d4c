use vstd::prelude::*;

verus! {

/// A color quantised to eight bits per channel, as it is written to an image.
#[derive(Clone, Copy, Debug, PartialEq, Eq, Structural)]
pub struct Rgb8 {
    pub red: u8,
    pub green: u8,
    pub blue: u8,
}

impl Rgb8 {
    pub fn new(red: u8, green: u8, blue: u8) -> (r: Rgb8)
        ensures
            r == (Rgb8 { red, green, blue }),
    {
        Rgb8 { red, green, blue }
    }
}

/// The channel value of an already scaled and rounded component.
pub open spec fn clamped(v: int) -> int {
    if v < 0 {
        0
    } else if v > 255 {
        255
    } else {
        v
    }
}

/// Clamps a component that was scaled by 255 and rounded to the range of a
/// byte: below 0 gives 0, above 255 gives 255.
pub fn clamp_channel(v: i64) -> (r: u8)
    ensures
        r as int == clamped(v as int),
{
    if v < 0 {
        0
    } else if v > 255 {
        255
    } else {
        v as u8
    }
}

} // verus!
