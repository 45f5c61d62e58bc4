use vstd::prelude::*;

pub mod caches;
pub mod framebuffer;
pub mod render;

pub use caches::{Atlas, Loaded, Placement};
pub use render::{Batch, BATCH_SIZE};


verus! {

/// Errors of the glyph atlases and of rendering.
#[derive(Debug, Clone)]
pub enum Error {
    /// The current atlas has no room left for the glyph.
    AtlasFull,
    RenderError(String),
    AtlasError(String),
    FrameBufferError(framebuffer::Error),
}

pub type Result<T> = std::result::Result<T, Error>;

} // verus!
