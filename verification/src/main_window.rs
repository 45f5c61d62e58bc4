use vstd::prelude::*;

verus! {

/// The bar of open tabs of the main window.
#[derive(Debug, Clone)]
pub struct TabBar;

} // verus!
