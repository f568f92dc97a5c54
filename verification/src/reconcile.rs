//! Reconciler: merges the per-channel figures into one result.
//!
//! Entropies enter as integers in milli-bits per symbol (thousandths of
//! a bit — three decimal places, finer than the two the presenter
//! prints), so that the clamp and percentage arithmetic is exact. A
//! valid order-0 entropy of an 8-bit alphabet lies in [0, 8] bits; a
//! channel figure above 8000 milli-bits is numerically degenerate
//! (it can only come from a malformed histogram or a non-finite
//! estimate) and is rejected before aggregation rather than summed into
//! downstream numbers.

use vstd::arithmetic::div_mod::{lemma_div_by_multiple, lemma_div_is_ordered};
use vstd::prelude::*;

use crate::errors::AnalysisError;

verus! {

/// Largest valid per-channel entropy: 8 bits per symbol, in milli-bits.
pub const MAX_CHANNEL_ENTROPY_MILLI: u64 = 8000;

/// Raw information-theoretic lower bound in whole bytes:
/// `total_entropy_bits * pixel_count / 8`, with the entropy carried in
/// milli-bits (hence the divisor 8000).
pub open spec fn raw_theoretical_bytes(total_milli: int, pixel_count: int) -> int {
    total_milli * pixel_count / 8000
}

/// Whether the raw bound exceeds the observed file size, so that the
/// claim must be clamped and the model declared not effective.
pub open spec fn model_clamped(total_milli: int, pixel_count: int, original_size: int) -> bool {
    raw_theoretical_bytes(total_milli, pixel_count) > original_size
}

/// Compression percentage in basis points (hundredths of a percent):
/// `(1 - theoretical / original) * 100`, or 0 when the clamp fires.
pub open spec fn compression_bp(total_milli: int, pixel_count: int, original_size: int) -> int {
    if model_clamped(total_milli, pixel_count, original_size) {
        0
    } else {
        (original_size - raw_theoretical_bytes(total_milli, pixel_count)) * 10000 / original_size
    }
}

/// The merged outcome of one analysis run.
#[derive(Clone, Copy, Debug, PartialEq, Eq, Structural)]
pub struct AnalysisResult {
    /// Entropy of each channel, milli-bits per pixel.
    pub red_entropy_milli: u64,
    pub green_entropy_milli: u64,
    pub blue_entropy_milli: u64,
    /// Sum of the three channel entropies, milli-bits per pixel.
    pub total_entropy_milli: u64,
    /// Theoretical minimum size in bytes, clamped to the file size.
    pub theoretical_min_size: u64,
    /// Observed file size in bytes.
    pub original_size: u64,
    /// Per-channel context-model size predictions, whole-bit units.
    pub red_predicted_size: usize,
    pub green_predicted_size: usize,
    pub blue_predicted_size: usize,
    /// Compression percentage in basis points (0 ..= 10000).
    pub compression_percent_bp: u64,
    /// False when the clamp fired: the advisory "model not effective"
    /// message replaces the numeric claim.
    pub model_effective: bool,
}

impl AnalysisResult {
    /// Invariant of every result the reconciler hands out: the clamped
    /// bound never exceeds the observed size, the percentage is a real
    /// percentage, and the total is the sum of the channels.
    pub open spec fn wf(&self) -> bool {
        &&& self.theoretical_min_size <= self.original_size
        &&& self.compression_percent_bp <= 10000
        &&& self.total_entropy_milli == self.red_entropy_milli + self.green_entropy_milli
            + self.blue_entropy_milli
    }
}

/// Combines the three channel entropies (milli-bits per pixel), the
/// pixel count and the observed file size into an `AnalysisResult`:
/// sums the entropies, converts to a raw theoretical byte bound, clamps
/// it to the file size (marking the model not effective), and derives
/// the compression percentage. The per-channel predicted sizes are
/// carried through for the presenter. Pure computation, no I/O.
///
/// A channel entropy above 8 bits per symbol is impossible for a real
/// histogram and is rejected as `NumericDegenerate` — exactly then does
/// the reconciler refuse to aggregate.
pub fn reconcile(
    red_milli: u64,
    green_milli: u64,
    blue_milli: u64,
    pixel_count: u64,
    original_size: u64,
    red_pred: usize,
    green_pred: usize,
    blue_pred: usize,
) -> (r: Result<AnalysisResult, AnalysisError>)
    requires
        original_size >= 1,
    ensures
        match r {
            Ok(res) => {
                let total: int = red_milli + green_milli + blue_milli;
                let raw: int = raw_theoretical_bytes(total, pixel_count as int);
                let clamped: bool = model_clamped(total, pixel_count as int, original_size as int);
                &&& red_milli <= MAX_CHANNEL_ENTROPY_MILLI
                &&& green_milli <= MAX_CHANNEL_ENTROPY_MILLI
                &&& blue_milli <= MAX_CHANNEL_ENTROPY_MILLI
                &&& res.red_entropy_milli == red_milli
                &&& res.green_entropy_milli == green_milli
                &&& res.blue_entropy_milli == blue_milli
                &&& res.total_entropy_milli == total
                &&& res.original_size == original_size
                &&& res.red_predicted_size == red_pred
                &&& res.green_predicted_size == green_pred
                &&& res.blue_predicted_size == blue_pred
                &&& res.model_effective == !clamped
                &&& res.theoretical_min_size == if clamped {
                    original_size as int
                } else {
                    raw
                }
                &&& res.compression_percent_bp == compression_bp(
                    total as int,
                    pixel_count as int,
                    original_size as int,
                )
                &&& res.wf()
            },
            Err(e) => {
                &&& e == AnalysisError::NumericDegenerate
                &&& (red_milli > MAX_CHANNEL_ENTROPY_MILLI || green_milli
                    > MAX_CHANNEL_ENTROPY_MILLI || blue_milli > MAX_CHANNEL_ENTROPY_MILLI)
            },
        },
{
    if red_milli > MAX_CHANNEL_ENTROPY_MILLI || green_milli > MAX_CHANNEL_ENTROPY_MILLI
        || blue_milli > MAX_CHANNEL_ENTROPY_MILLI {
        return Err(AnalysisError::NumericDegenerate);
    }
    let total: u64 = red_milli + green_milli + blue_milli;
    proof {
        assert((total as int) * (pixel_count as int) <= 24000 * 0xffff_ffff_ffff_ffff)
            by (nonlinear_arith)
            requires
                total <= 24000u64,
                pixel_count <= 0xffff_ffff_ffff_ffffu64,
        ;
    }
    let raw_wide: u128 = (total as u128) * (pixel_count as u128) / 8000;
    let ghost raw: int = raw_theoretical_bytes(total as int, pixel_count as int);
    let ghost clamped: bool = model_clamped(total as int, pixel_count as int, original_size as int);
    proof {
        assert(raw_wide == raw);
    }
    let (theoretical, effective): (u64, bool) = if raw_wide > original_size as u128 {
        (original_size, false)
    } else {
        (raw_wide as u64, true)
    };
    let percent_bp: u64 = if effective {
        let num: u128 = (original_size - theoretical) as u128 * 10000;
        let bp: u128 = num / original_size as u128;
        proof {
            lemma_div_is_ordered(num as int, 10000 * (original_size as int), original_size as int);
            lemma_div_by_multiple(10000, original_size as int);
        }
        bp as u64
    } else {
        0
    };
    Ok(
        AnalysisResult {
            red_entropy_milli: red_milli,
            green_entropy_milli: green_milli,
            blue_entropy_milli: blue_milli,
            total_entropy_milli: total,
            theoretical_min_size: theoretical,
            original_size,
            red_predicted_size: red_pred,
            green_predicted_size: green_pred,
            blue_predicted_size: blue_pred,
            compression_percent_bp: percent_bp,
            model_effective: effective,
        },
    )
}

} // verus!
