use vstd::prelude::*;

verus! {

/// A two dimensional quantity (a size, a number of cells or a position).
#[derive(Debug, Clone, Copy)]
pub struct Size<T> {
    pub x: T,
    pub y: T,
}

impl<T> Size<T> {
    pub fn new(x: T, y: T) -> (s: Self)
        ensures
            s.x == x,
            s.y == y,
    {
        Self { x, y }
    }
}

impl<T: Copy> Size<T> {
    /// The horizontal extent.
    pub fn width(&self) -> (w: T)
        ensures
            w == self.x,
    {
        self.x
    }

    /// The vertical extent.
    pub fn height(&self) -> (h: T)
        ensures
            h == self.y,
    {
        self.y
    }
}

} // verus!
