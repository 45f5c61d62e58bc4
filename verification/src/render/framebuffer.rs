use vstd::prelude::*;

verus! {

/// Errors when building the frame buffer a pane is rendered into.
#[derive(Debug, Clone, Copy, PartialEq, Eq)]
pub enum Error {
    Incomplete,
    ToManyBuffers,
}

pub type Result<T> = std::result::Result<T, Error>;

/// The status that the driver reports for a frame buffer that can be drawn
/// to (`GL_FRAMEBUFFER_COMPLETE`).
pub const FRAMEBUFFER_COMPLETE: u32 = 0x8CD5;

/// Whether a frame buffer whose status the driver reported as `status` can
/// be used: any status but complete makes it incomplete.
pub fn check_status(status: u32) -> (r: Result<()>)
    ensures
        r is Ok <==> status == FRAMEBUFFER_COMPLETE,
        r is Err ==> r == Err::<(), Error>(Error::Incomplete),
{
    if status != FRAMEBUFFER_COMPLETE {
        Err(Error::Incomplete)
    } else {
        Ok(())
    }
}

} // verus!
