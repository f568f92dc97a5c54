//! Empirical byte histogram: the verified stage of the entropy estimator.
//!
//! Order-0 Shannon entropy of a channel is a function of its frequency
//! histogram alone. This module builds that histogram with an exact
//! contract: bucket `v` holds the number of occurrences of byte `v`, and
//! the buckets sum to the channel length. It also proves the
//! order-independence law: the histogram depends only on the multiset of
//! bytes, never on their order, so any figure derived from it (the
//! entropy in particular) is invariant under permutation of the input.

use vstd::multiset::Multiset;
use vstd::prelude::*;

use crate::errors::AnalysisError;

verus! {

/// Number of occurrences of the byte `v` in `s`.
pub open spec fn count_of(s: Seq<u8>, v: u8) -> nat
    decreases s.len(),
{
    if s.len() == 0 {
        0
    } else {
        count_of(s.drop_last(), v) + if s.last() == v {
            1nat
        } else {
            0nat
        }
    }
}

/// Sum of all buckets of a histogram.
pub open spec fn sum_counts(h: Seq<u64>) -> int
    decreases h.len(),
{
    if h.len() == 0 {
        0
    } else {
        sum_counts(h.drop_last()) + h.last()
    }
}

/// A byte occurs at most as often as the sequence is long.
proof fn lemma_count_le_len(s: Seq<u8>, v: u8)
    ensures
        count_of(s, v) <= s.len(),
    decreases s.len(),
{
    if s.len() > 0 {
        lemma_count_le_len(s.drop_last(), v);
    }
}

/// Updating one bucket moves the sum of the buckets by the same amount.
proof fn lemma_sum_counts_update(h: Seq<u64>, i: int, x: u64)
    requires
        0 <= i < h.len(),
    ensures
        sum_counts(h.update(i, x)) == sum_counts(h) - h[i] + x,
    decreases h.len(),
{
    let hu = h.update(i, x);
    if i == h.len() - 1 {
        assert(hu.drop_last() =~= h.drop_last());
    } else {
        assert(hu.drop_last() =~= h.drop_last().update(i, x));
        assert(hu.last() == h.last());
        lemma_sum_counts_update(h.drop_last(), i, x);
    }
}

/// Builds the frequency histogram of a byte sequence: 256 buckets, one
/// per byte value, bucket `v` holding the number of occurrences of `v`.
/// The buckets sum to the length of the input.
pub fn build_histogram(data: &Vec<u8>) -> (hist: Vec<u64>)
    ensures
        hist@.len() == 256,
        forall|v: u8| hist@[v as int] == count_of(data@, v),
        sum_counts(hist@) == data@.len(),
{
    let mut hist: Vec<u64> = Vec::new();
    let mut b: usize = 0;
    while b < 256
        invariant
            hist@.len() == b,
            b <= 256,
            forall|j: int| 0 <= j < b ==> hist@[j] == 0,
            sum_counts(hist@) == 0,
        decreases 256 - b,
    {
        let ghost before = hist@;
        hist.push(0);
        proof {
            assert(hist@.drop_last() =~= before);
        }
        b += 1;
    }
    proof {
        assert forall|v: u8| hist@[v as int] == count_of(data@.take(0), v) by {
            assert(data@.take(0).len() == 0);
        }
    }
    let mut i: usize = 0;
    while i < data.len()
        invariant
            hist@.len() == 256,
            i <= data@.len(),
            forall|v: u8| hist@[v as int] == count_of(data@.take(i as int), v),
            sum_counts(hist@) == i,
        decreases data@.len() - i,
    {
        let byte: u8 = data[i];
        let ghost prefix = data@.take(i as int);
        let ghost next_prefix = data@.take(i as int + 1);
        proof {
            assert(next_prefix.drop_last() =~= prefix);
            assert(next_prefix.last() == data@[i as int]);
            lemma_count_le_len(prefix, byte);
            assert(count_of(prefix, byte) <= i);
            lemma_sum_counts_update(hist@, byte as int, (hist@[byte as int] + 1) as u64);
        }
        let current: u64 = hist[byte as usize];
        hist.set(byte as usize, current + 1);
        proof {
            assert forall|v: u8| hist@[v as int] == count_of(next_prefix, v) by {
                if v == byte {
                    assert(count_of(next_prefix, v) == count_of(prefix, v) + 1);
                } else {
                    assert(count_of(next_prefix, v) == count_of(prefix, v));
                }
            }
        }
        i += 1;
    }
    proof {
        assert(data@.take(data@.len() as int) =~= data@);
    }
    hist
}

/// Entry point of the entropy estimator's counting stage. A zero-length
/// channel is rejected with `EmptyChannel` (it must never silently look
/// like an all-zero histogram); any non-empty channel yields its exact
/// histogram.
pub fn entropy_histogram(data: &Vec<u8>) -> (r: Result<Vec<u64>, AnalysisError>)
    ensures
        match r {
            Ok(hist) => {
                &&& data@.len() > 0
                &&& hist@.len() == 256
                &&& forall|v: u8| hist@[v as int] == count_of(data@, v)
                &&& sum_counts(hist@) == data@.len()
            },
            Err(e) => e == AnalysisError::EmptyChannel && data@.len() == 0,
        },
{
    if data.len() == 0 {
        Err(AnalysisError::EmptyChannel)
    } else {
        Ok(build_histogram(data))
    }
}

/// The occurrence count is the multiset count: position plays no part.
proof fn lemma_count_is_multiset_count(s: Seq<u8>, v: u8)
    ensures
        count_of(s, v) == s.to_multiset().count(v),
    decreases s.len(),
{
    broadcast use vstd::seq_lib::group_to_multiset_ensures;

    if s.len() == 0 {
        assert(s.to_multiset() =~= Multiset::<u8>::empty());
    } else {
        lemma_count_is_multiset_count(s.drop_last(), v);
        assert(s.drop_last().push(s.last()) =~= s);
        assert(s.drop_last().push(s.last()).to_multiset() =~= s.drop_last().to_multiset().insert(
            s.last(),
        ));
    }
}

/// Degenerate-channel shape: in a channel holding one repeated value,
/// that value's bucket carries the whole length and every other bucket
/// is zero — the histogram of a single certain symbol, whose entropy is
/// exactly zero under any fold.
pub proof fn lemma_histogram_constant_channel(s: Seq<u8>, v: u8)
    requires
        forall|j: int| 0 <= j < s.len() ==> s[j] == v,
    ensures
        count_of(s, v) == s.len(),
        forall|w: u8| w != v ==> count_of(s, w) == 0,
    decreases s.len(),
{
    if s.len() > 0 {
        lemma_histogram_constant_channel(s.drop_last(), v);
        assert forall|w: u8| w != v implies count_of(s, w) == 0 by {
            assert(count_of(s, w) == count_of(s.drop_last(), w) + if s.last() == w {
                1nat
            } else {
                0nat
            });
        }
    }
}

/// Order-independence of the entropy estimator's model: two channels
/// holding the same bytes in any order have identical histograms, so the
/// entropy (a function of the histogram alone) is invariant under
/// permutation of the input sequence.
pub proof fn lemma_histogram_order_independent(s: Seq<u8>, t: Seq<u8>)
    requires
        s.to_multiset() == t.to_multiset(),
    ensures
        forall|v: u8| count_of(s, v) == count_of(t, v),
{
    assert forall|v: u8| count_of(s, v) == count_of(t, v) by {
        lemma_count_is_multiset_count(s, v);
        lemma_count_is_multiset_count(t, v);
    }
}

} // verus!
