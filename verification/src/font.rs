use vstd::prelude::*;
use std::path::PathBuf;
use std::sync::atomic::AtomicU16;
use std::sync::atomic::Ordering;

verus! {

#[verifier::external_type_specification]
#[verifier::external_body]
pub struct ExPathBuf(std::path::PathBuf);

/// `PathBuf::clone` (called by the derived `Clone` of `FontDesc`); nothing
/// is stated of the copy.
pub assume_specification[<std::path::PathBuf as Clone>::clone](p: &PathBuf) -> PathBuf;

/// The style of a font.
#[derive(Debug, Clone, Copy, PartialEq, Eq)]
pub enum Style {
    Normal,
    Italics,
    Bold,
}

/// Describes a font: its name and the file it is loaded from.
#[derive(Debug, Clone)]
pub struct FontDesc {
    pub name: String,
    pub path: PathBuf,
}

/// Identifies a loaded font.
#[derive(Debug, Clone, Copy, PartialEq, Eq, Hash)]
pub struct FontKey {
    pub token: u16,
}

impl FontKey {
    /// Takes the next key from the shared counter `token`, which is read and
    /// incremented (with wrap around) in one atomic step. Which value comes
    /// back depends on the counter's state at the call, shared with other
    /// callers, so the contract names no result.
    pub fn next(token: &AtomicU16) -> FontKey {
        FontKey { token: token.fetch_add(1, Ordering::SeqCst) }
    }
}

} // verus!
