use vstd::prelude::*;

use super::{PaneID, Position};

verus! {

/// How a cursor is drawn.
#[derive(Debug, Clone, Copy, PartialEq, Eq)]
pub enum CursorMode {
    /// Full boxy cursor
    Box,
    /// Underline cursor
    Underline,
    /// Single line cursor
    Line,
}

/// Represents a cursor.
#[derive(Debug, Clone)]
pub struct Cursor {
    /// current position of cursor
    pos: Position,
    /// owner of this cursor
    pane: PaneID,
    /// mode of the cursor, see CursorMode
    mode: CursorMode,
}

impl Cursor {
    /// The cell the cursor is on, as (column, row).
    pub closed spec fn cell(&self) -> (u32, u32) {
        (self.pos.x, self.pos.y)
    }

    /// The pane that owns the cursor.
    pub closed spec fn owner(&self) -> PaneID {
        self.pane
    }

    /// How the cursor is drawn.
    pub closed spec fn drawn_as(&self) -> CursorMode {
        self.mode
    }

    /// A cursor of `pane` drawn as `mode`, at the top left cell.
    pub fn new(pane: PaneID, mode: CursorMode) -> (c: Self)
        ensures
            c.cell() == (0u32, 0u32),
            c.owner() == pane,
            c.drawn_as() == mode,
    {
        Self { pos: Position::new(0, 0), pane, mode }
    }

    /// The same cursor moved to `pos`.
    pub fn at(self, pos: Position) -> (c: Self)
        ensures
            c.cell() == (pos.x, pos.y),
            c.owner() == self.owner(),
            c.drawn_as() == self.drawn_as(),
    {
        Self { pos, pane: self.pane, mode: self.mode }
    }

    /// The current position of the cursor.
    pub fn pos(&self) -> (p: &Position)
        ensures
            (p.x, p.y) == self.cell(),
    {
        &self.pos
    }
}

} // verus!
