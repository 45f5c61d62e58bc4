use vstd::prelude::*;
use std::sync::atomic::AtomicU32;
use std::sync::atomic::Ordering;

use crate::size;

pub mod editpane;
pub mod layout;

pub use editpane::{Cursor, CursorMode};
pub use layout::Orientation;

verus! {

/// Position of a cursor, in cells.
pub type Position = size::Size<u32>;

/// Size of a pane in number of cells.
pub type Cells = size::Size<u32>;

/// Identifier of a pane.
#[derive(Debug, Clone, Copy, Hash, PartialEq, Eq)]
pub struct PaneID(u32);

impl View for PaneID {
    type V = u32;

    closed spec fn view(&self) -> u32 {
        self.0
    }
}

impl PaneID {
    /// Takes the next identifier from the shared counter `token`. The
    /// counter is read and incremented in one atomic step, so concurrent
    /// callers never receive the same value (until the counter wraps).
    /// Which value comes back depends on the counter's state at the call,
    /// shared with other callers, so the contract names no result.
    pub fn next(token: &AtomicU32) -> PaneID {
        PaneID(token.fetch_add(1, Ordering::SeqCst))
    }

    /// The number behind this identifier.
    pub fn token(&self) -> (t: u32)
        ensures
            t == self@,
    {
        self.0
    }
}

} // verus!
