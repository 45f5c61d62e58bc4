use vstd::prelude::*;

verus! {

/// The direction in which a layout orders its panes.
#[derive(Debug, Clone, Copy, PartialEq, Eq)]
pub enum Orientation {
    Vert,
    Hori,
}

} // verus!
