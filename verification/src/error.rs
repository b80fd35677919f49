//! The three kinds of failure a rendering pass distinguishes.

use vstd::prelude::*;

verus! {

/// Errors surfaced by the rendering core.
#[derive(Clone, Copy, PartialEq, Eq, Structural, Debug)]
pub enum RenderError {
    /// The compiled memory budget or the format combination cannot serve
    /// the requested workload; retrying cannot help.
    Config,
    /// The content handed to a shape is malformed; the current pass is
    /// aborted rather than drawing garbage.
    Content,
    /// The hardware blitter has not retired its previous operation; the
    /// caller may wait or fall back to a software path.
    HardwareBusy,
}

} // verus!
