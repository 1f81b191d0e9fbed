//! Points labelled with the name of the frame they are expressed in.
use vstd::prelude::*;

verus! {

/// A point of the plane, expressed in the frame `frame_name`.
pub struct Point2D<'a, T> {
    pub x: T,
    pub y: T,
    pub frame_name: &'a str,
}

impl<'a, T> Point2D<'a, T> {
    pub fn new(x: T, y: T, frame_name: &'a str) -> (r: Self)
        ensures
            r.x == x,
            r.y == y,
            r.frame_name == frame_name,
    {
        Self { x, y, frame_name }
    }
}

/// A point of space, expressed in the frame `frame_name`.
pub struct Point<'a, T> {
    pub x: T,
    pub y: T,
    pub z: T,
    pub frame_name: &'a str,
}

impl<'a, T> Point<'a, T> {
    pub fn new(x: T, y: T, z: T, frame_name: &'a str) -> (r: Self)
        ensures
            r.x == x,
            r.y == y,
            r.z == z,
            r.frame_name == frame_name,
    {
        Self { x, y, z, frame_name }
    }
}

} // verus!
