//! Terminal coordinates and sizes.

use vstd::prelude::*;

verus! {

/// A pair of terminal coordinates, or a width and a height.
#[derive(Debug, Clone, Copy)]
pub struct Pos<T> {
    pub x: T,
    pub y: T,
}

impl<T> Pos<T> where T: std::fmt::Display + Clone + Ord {
    pub fn new(x: T, y: T) -> (r: Self)
        ensures
            r.x == x,
            r.y == y,
    {
        Self { x, y }
    }
}

} // verus!
