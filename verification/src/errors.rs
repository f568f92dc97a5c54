//! Error taxonomy of the analysis pipeline.

use vstd::prelude::*;

verus! {

/// Everything that can go wrong while analysing one image.
///
/// `Decode` and `Metadata` are raised by the I/O shell around the
/// library when the image cannot be read; `EmptyChannel` when a
/// zero-length channel reaches the entropy estimator or the run-length
/// simulator; `NumericDegenerate` when a per-channel entropy figure is
/// outside the valid range of an 8-bit alphabet and must not be
/// aggregated further.
#[derive(Clone, Copy, Debug, PartialEq, Eq, Structural)]
pub enum AnalysisError {
    Decode,
    Metadata,
    EmptyChannel,
    NumericDegenerate,
}

} // verus!
