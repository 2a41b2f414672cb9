//! The progress-reporting capability: a sink the renderer advances once per
//! finished pixel, and once more after the whole grid, so a caller can show
//! how far a render has come.

use vstd::prelude::*;

verus! {

/// Receives one `advance` per pixel as the render proceeds, and a final one
/// after the last pixel. What an implementation does with a surplus call —
/// display, ignore, or record an error — is its own policy; the renderer
/// never issues one.
pub trait ProgressSink {
    fn advance(&mut self);
}

/// A sink that shows nothing: for renders nobody watches.
#[derive(Clone, Copy, Debug, PartialEq, Eq, Structural)]
pub struct SilentProgress;

impl ProgressSink for SilentProgress {
    fn advance(&mut self) {
    }
}

} // verus!
