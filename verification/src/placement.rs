//! A placement: what to draw on the canvas, where, and how large.

use vstd::prelude::*;

verus! {

/// Size of a placement that names none.
pub const DEFAULT_SIZE: u32 = 5;

/// Mathematical model of a placement.
pub struct PlacementModel {
    pub text: Seq<char>,
    pub x: u32,
    pub y: u32,
    pub size: u32,
}

/// A text or the name of an icon, the place of its upper left corner on the
/// canvas, and its size.
#[derive(Debug, PartialEq, Eq)]
pub struct Data {
    pub text: String,
    pub x: u32,
    pub y: u32,
    pub size: u32,
}

impl View for Data {
    type V = PlacementModel;

    open spec fn view(&self) -> PlacementModel {
        PlacementModel { text: self.text@, x: self.x, y: self.y, size: self.size }
    }
}

impl Clone for Data {
    fn clone(&self) -> (copy: Data)
        ensures
            copy@ == self@,
    {
        Data { text: self.text.clone(), x: self.x, y: self.y, size: self.size }
    }
}

impl Default for Data {
    /// The empty placement: no text, at the origin, of size zero.
    fn default() -> (data: Data)
        ensures
            data@ == (PlacementModel { text: Seq::empty(), x: 0, y: 0, size: 0 }),
    {
        Data { text: String::new(), x: 0, y: 0, size: 0 }
    }
}

/// The largest values a placement may hold.
#[derive(Debug, Clone, Copy, PartialEq, Eq, Structural)]
pub struct CanvasLimits {
    /// Width of the canvas in pixels.
    pub width: u32,
    /// Height of the canvas in pixels.
    pub height: u32,
    /// Largest size of a placement.
    pub max_size: u32,
}

/// The smaller of two numbers.
pub open spec fn at_most(value: u32, limit: u32) -> u32 {
    if value <= limit {
        value
    } else {
        limit
    }
}

/// The smaller of two numbers.
pub fn clamp_to(value: u32, limit: u32) -> (clamped: u32)
    ensures
        clamped == at_most(value, limit),
{
    if value <= limit {
        value
    } else {
        limit
    }
}

} // verus!
