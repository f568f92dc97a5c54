//! Run-length size simulator: the cheap alternative predictor.
//!
//! The channel is walked once, grouping maximal runs of equal
//! consecutive bytes; every run contributes two output units — one for
//! the byte value, one for the run length — regardless of how long the
//! run is (lengths are deliberately not clamped to 255; this is a
//! simulated comparison figure, not a real encoder).

use vstd::prelude::*;

use crate::errors::AnalysisError;

verus! {

/// Number of maximal runs of equal consecutive bytes in `s`: one run for
/// a singleton, one more for every position whose byte differs from its
/// predecessor.
pub open spec fn run_count(s: Seq<u8>) -> nat
    decreases s.len(),
{
    if s.len() == 0 {
        0
    } else if s.len() == 1 {
        1
    } else {
        run_count(s.drop_last()) + if s[s.len() - 2] == s.last() {
            0nat
        } else {
            1nat
        }
    }
}

proof fn lemma_run_count_le_len(s: Seq<u8>)
    ensures
        run_count(s) <= s.len(),
        s.len() > 0 ==> 1 <= run_count(s),
    decreases s.len(),
{
    if s.len() > 1 {
        lemma_run_count_le_len(s.drop_last());
    }
}

/// Simulated run-length encoded size of a channel: two units per maximal
/// run. A zero-length channel is rejected with `EmptyChannel` — the
/// simulator is undefined on empty input and must fail explicitly rather
/// than report a size.
pub fn rle_size(data: &Vec<u8>) -> (r: Result<usize, AnalysisError>)
    requires
        data@.len() * 2 <= usize::MAX,
    ensures
        match r {
            Ok(units) => data@.len() > 0 && units == 2 * run_count(data@),
            Err(e) => e == AnalysisError::EmptyChannel && data@.len() == 0,
        },
{
    if data.len() == 0 {
        return Err(AnalysisError::EmptyChannel);
    }
    let mut runs: usize = 1;
    let mut i: usize = 1;
    proof {
        assert(data@.take(1).len() == 1);
        assert(run_count(data@.take(1)) == 1);
    }
    while i < data.len()
        invariant
            1 <= i <= data@.len(),
            data@.len() * 2 <= usize::MAX,
            runs == run_count(data@.take(i as int)),
            runs <= i,
        decreases data@.len() - i,
    {
        let ghost prefix = data@.take(i as int);
        let ghost extended = data@.take(i as int + 1);
        proof {
            assert(extended.drop_last() =~= prefix);
            assert(extended.last() == data@[i as int]);
            assert(extended[extended.len() - 2] == data@[i as int - 1]);
            lemma_run_count_le_len(prefix);
        }
        if data[i] != data[i - 1] {
            runs = runs + 1;
        }
        i += 1;
    }
    proof {
        assert(data@.take(data@.len() as int) =~= data@);
        lemma_run_count_le_len(data@);
    }
    Ok(2 * runs)
}

/// A run of identical bytes, however long, costs exactly two units: the
/// simulator's output for any constant non-empty channel is 2.
pub proof fn lemma_rle_constant_run(s: Seq<u8>, v: u8)
    requires
        s.len() > 0,
        forall|j: int| 0 <= j < s.len() ==> s[j] == v,
    ensures
        run_count(s) == 1,
    decreases s.len(),
{
    if s.len() > 1 {
        lemma_rle_constant_run(s.drop_last(), v);
    }
}

} // verus!
