use vstd::prelude::*;

verus! {

/// The ways in which the engine rejects its input.
#[derive(Clone, Copy, Debug, PartialEq, Eq, Structural)]
pub enum LedError {
    /// A frame with no pixels cannot be rotated.
    EmptyFrame,
    /// A sequence needs at least one frame.
    NoFrames,
    /// A frame rate must be a positive number of frames per second.
    InvalidFramerate,
    /// A strip needs at least one pixel.
    NoPixels,
}

} // verus!
