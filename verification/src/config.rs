use vstd::prelude::*;

use crate::pane;

verus! {

/// Tab settings.
#[derive(Debug, Clone)]
pub struct Tab {
    /// how many columns a tab takes
    pub tab_width: u8,
}

/// How the cursor is drawn in each mode.
#[derive(Debug, Clone)]
pub struct Cursor {
    /// the cursor mode in insert mode
    pub insert: pane::CursorMode,
    /// the cursor mode in normal mode
    pub normal: pane::CursorMode,
}

} // verus!
