use vstd::prelude::*;

verus! {

/// Errors of the drawing backend. Drawing on a canvas does not fail; the
/// one variant names the primitive the canvas cannot render (bitmaps),
/// which the backend skips rather than report.
#[derive(Clone, Copy, Debug, PartialEq, Eq, Structural)]
pub enum Error {
    BitmapUnsupported,
}

} // verus!
