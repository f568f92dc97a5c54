//! Order-3 context-model size predictor.
//!
//! The predictor walks a channel once, left to right. For each position
//! the context is the sequence of up to three immediately preceding
//! bytes (shorter at the start of the channel). A `ContextTable` — here
//! two hash maps keyed by an injective integer encoding of the context —
//! holds adaptive occurrence counts. Before the counts are updated with
//! the current symbol, the symbol's coding cost in whole bits is charged:
//!
//! * if the context has never been seen, or the symbol has never been
//!   seen in this context (probability undefined or zero), a fixed
//!   escape cost of 8 bits — one whole byte symbol at uniform cost — is
//!   charged; no division is attempted;
//! * otherwise the cost is `ceil(|log2(count / total)|)`, computed
//!   exactly in integer arithmetic as the smallest `k` with
//!   `count * 2^k >= total`.
//!
//! The resolution is one whole bit per symbol; the result is a
//! comparative metric, not an achievable byte count.

use std::collections::HashMap;
use vstd::arithmetic::power2::pow2;
use vstd::prelude::*;

verus! {

broadcast use vstd::std_specs::hash::group_hash_axioms;

/// Start of the context window for position `i`: up to three bytes back.
pub open spec fn context_start(i: int) -> int {
    if i >= 3 {
        i - 3
    } else {
        0
    }
}

/// The context of position `i`: the up-to-three bytes preceding it.
pub open spec fn context_at(s: Seq<u8>, i: int) -> Seq<u8> {
    s.subrange(context_start(i), i)
}

/// The bytes of a context read as a base-256 number.
pub open spec fn bytes_value(c: Seq<u8>) -> int
    decreases c.len(),
{
    if c.len() == 0 {
        0
    } else {
        256 * bytes_value(c.drop_last()) + c.last()
    }
}

/// Injective integer encoding of a context of at most three bytes: the
/// length in the high bits keeps contexts of different lengths apart.
pub open spec fn context_key(c: Seq<u8>) -> int {
    0x100_0000 * c.len() + bytes_value(c)
}

/// Injective integer encoding of a (context, symbol) pair.
pub open spec fn pair_key(c: Seq<u8>, v: u8) -> int {
    256 * context_key(c) + v
}

/// The pair key as the `u64` used to address the hash maps; for contexts
/// of at most three bytes the cast loses nothing.
pub open spec fn pair_key_u64(c: Seq<u8>, v: u8) -> u64 {
    pair_key(c, v) as u64
}

/// The context key as the `u64` used to address the hash maps.
pub open spec fn context_key_u64(c: Seq<u8>) -> u64 {
    context_key(c) as u64
}

proof fn lemma_bytes_value_bound(c: Seq<u8>)
    ensures
        0 <= bytes_value(c),
        c.len() == 0 ==> bytes_value(c) == 0,
        c.len() <= 1 ==> bytes_value(c) < 0x100,
        c.len() <= 2 ==> bytes_value(c) < 0x1_0000,
        c.len() <= 3 ==> bytes_value(c) < 0x100_0000,
    decreases c.len(),
{
    if c.len() > 0 {
        lemma_bytes_value_bound(c.drop_last());
    }
}

proof fn lemma_bytes_value_injective(c1: Seq<u8>, c2: Seq<u8>)
    requires
        c1.len() == c2.len(),
        bytes_value(c1) == bytes_value(c2),
    ensures
        c1 =~= c2,
    decreases c1.len(),
{
    if c1.len() > 0 {
        assert(0 <= c1.last() < 256 && 0 <= c2.last() < 256);
        lemma_bytes_value_bound(c1.drop_last());
        lemma_bytes_value_bound(c2.drop_last());
        assert(c1.last() == c2.last());
        assert(bytes_value(c1.drop_last()) == bytes_value(c2.drop_last()));
        lemma_bytes_value_injective(c1.drop_last(), c2.drop_last());
        assert forall|j: int| 0 <= j < c1.len() implies c1[j] == c2[j] by {
            if j < c1.len() - 1 {
                assert(c1.drop_last()[j] == c2.drop_last()[j]);
            }
        }
    }
}

proof fn lemma_pair_key_injective(c1: Seq<u8>, v1: u8, c2: Seq<u8>, v2: u8)
    requires
        c1.len() <= 3,
        c2.len() <= 3,
        pair_key_u64(c1, v1) == pair_key_u64(c2, v2),
    ensures
        c1 == c2,
        v1 == v2,
{
    lemma_bytes_value_bound(c1);
    lemma_bytes_value_bound(c2);
    assert(pair_key(c1, v1) == pair_key(c2, v2));
    assert(context_key(c1) == context_key(c2) && v1 == v2);
    assert(c1.len() == c2.len() && bytes_value(c1) == bytes_value(c2));
    lemma_bytes_value_injective(c1, c2);
}

proof fn lemma_context_key_injective(c1: Seq<u8>, c2: Seq<u8>)
    requires
        c1.len() <= 3,
        c2.len() <= 3,
        context_key_u64(c1) == context_key_u64(c2),
    ensures
        c1 == c2,
{
    lemma_bytes_value_bound(c1);
    lemma_bytes_value_bound(c2);
    assert(context_key(c1) == context_key(c2));
    assert(c1.len() == c2.len() && bytes_value(c1) == bytes_value(c2));
    lemma_bytes_value_injective(c1, c2);
}

/// How often the symbol `v` has followed the context `c` strictly before
/// position `i` — the adaptive count at the moment position `i` is coded.
pub open spec fn pair_count(s: Seq<u8>, i: int, c: Seq<u8>, v: u8) -> nat
    decreases i,
{
    if i <= 0 {
        0
    } else {
        pair_count(s, i - 1, c, v) + if context_at(s, i - 1) == c && s[i - 1] == v {
            1nat
        } else {
            0nat
        }
    }
}

/// How often the context `c` has occurred strictly before position `i`:
/// the sum of the adaptive counts of its frequency mapping.
pub open spec fn context_count(s: Seq<u8>, i: int, c: Seq<u8>) -> nat
    decreases i,
{
    if i <= 0 {
        0
    } else {
        context_count(s, i - 1, c) + if context_at(s, i - 1) == c {
            1nat
        } else {
            0nat
        }
    }
}

proof fn lemma_counts_le(s: Seq<u8>, i: int, c: Seq<u8>, v: u8)
    ensures
        pair_count(s, i, c, v) <= context_count(s, i, c) <= if i >= 0 {
            i
        } else {
            0
        },
    decreases i,
{
    if i > 0 {
        lemma_counts_le(s, i - 1, c, v);
    }
}

/// `ceil(log2(total / count))`: the smallest `k` with
/// `count * 2^k >= total`, the whole-bit cost of coding an event of
/// probability `count / total`.
pub open spec fn ceil_log2_ratio(count: nat, total: nat) -> nat
    recommends
        1 <= count,
    decreases total,
    when 1 <= count
{
    if total <= count {
        0
    } else {
        1 + ceil_log2_ratio(count, ((total + 1) / 2) as nat)
    }
}

proof fn lemma_ceil_log2_ratio_double(count: nat, total: nat)
    requires
        1 <= count < total,
    ensures
        ceil_log2_ratio(count, total) == 1 + ceil_log2_ratio(2 * count, total),
    decreases total,
{
    let h: nat = ((total + 1) / 2) as nat;
    if total <= 2 * count {
        assert(h <= count);
        assert(ceil_log2_ratio(count, h) == 0);
        assert(ceil_log2_ratio(2 * count, total) == 0);
    } else {
        assert(count < h < total);
        lemma_ceil_log2_ratio_double(count, h);
    }
}

proof fn lemma_ceil_log2_ratio_bound(count: nat, total: nat, k: nat)
    requires
        1 <= count,
        total <= count * pow2(k),
    ensures
        ceil_log2_ratio(count, total) <= k,
    decreases k,
{
    broadcast use vstd::arithmetic::power2::lemma_pow2_unfold;
    broadcast use vstd::arithmetic::power2::lemma_pow2_pos;

    if total > count {
        assert(pow2(0) == 1) by {
            vstd::arithmetic::power2::lemma2_to64();
        }
        assert(k >= 1) by {
            if k == 0 {
                assert(count * pow2(0) == count);
            }
        }
        let h: nat = ((total + 1) / 2) as nat;
        assert(pow2(k) == 2 * pow2((k - 1) as nat));
        assert(count * pow2(k) == 2 * (count * pow2((k - 1) as nat))) by (nonlinear_arith)
            requires
                pow2(k) == 2 * pow2((k - 1) as nat),
        ;
        assert(h <= count * pow2((k - 1) as nat));
        lemma_ceil_log2_ratio_bound(count, h, (k - 1) as nat);
    }
}

/// Whole-bit cost charged for position `i`: the escape cost of 8 bits
/// when the context or the symbol is unseen (the probability would be
/// undefined or zero — no division takes place), the exact
/// `ceil(|log2(count / total)|)` otherwise.
pub open spec fn symbol_cost(s: Seq<u8>, i: int) -> nat
    recommends
        0 <= i < s.len(),
{
    let c = context_at(s, i);
    let total: nat = context_count(s, i, c);
    let cnt: nat = pair_count(s, i, c, s[i]);
    if total == 0 || cnt == 0 {
        8
    } else {
        ceil_log2_ratio(cnt, total)
    }
}

/// Accumulated cost of the first `n` positions.
pub open spec fn ppm_cost_prefix(s: Seq<u8>, n: int) -> nat
    decreases n,
{
    if n <= 0 {
        0
    } else {
        ppm_cost_prefix(s, n - 1) + symbol_cost(s, n - 1)
    }
}

/// The predicted size of a whole channel under the order-3 context
/// model, in whole-bit units.
pub open spec fn ppm_cost(s: Seq<u8>) -> nat {
    ppm_cost_prefix(s, s.len() as int)
}

proof fn lemma_symbol_cost_bound(s: Seq<u8>, i: int)
    requires
        0 <= i <= u64::MAX,
    ensures
        symbol_cost(s, i) <= 64,
{
    let c = context_at(s, i);
    let total: nat = context_count(s, i, c);
    let cnt: nat = pair_count(s, i, c, s[i]);
    lemma_counts_le(s, i, c, s[i]);
    if total != 0 && cnt != 0 {
        assert(pow2(64) == 0x1_0000_0000_0000_0000) by {
            vstd::arithmetic::power2::lemma2_to64_rest();
        }
        assert(total <= cnt * pow2(64)) by (nonlinear_arith)
            requires
                1 <= cnt,
                total <= 0xffff_ffff_ffff_ffff,
                pow2(64) == 0x1_0000_0000_0000_0000,
        ;
        lemma_ceil_log2_ratio_bound(cnt, total, 64);
    }
}

proof fn lemma_ppm_cost_prefix_le(s: Seq<u8>, n: int, m: int)
    requires
        n <= m,
    ensures
        ppm_cost_prefix(s, n) <= ppm_cost_prefix(s, m),
    decreases m - n,
{
    if n < m {
        lemma_ppm_cost_prefix_le(s, n, m - 1);
    }
}

proof fn lemma_counts_prefix(s: Seq<u8>, t: Seq<u8>, i: int, c: Seq<u8>, v: u8)
    requires
        s.is_prefix_of(t),
        i <= s.len(),
    ensures
        pair_count(t, i, c, v) == pair_count(s, i, c, v),
        context_count(t, i, c) == context_count(s, i, c),
    decreases i,
{
    if i > 0 {
        lemma_counts_prefix(s, t, i - 1, c, v);
        assert(context_at(t, i - 1) =~= context_at(s, i - 1));
    }
}

proof fn lemma_ppm_cost_prefix_stable(s: Seq<u8>, t: Seq<u8>, n: int)
    requires
        s.is_prefix_of(t),
        n <= s.len(),
    ensures
        ppm_cost_prefix(t, n) == ppm_cost_prefix(s, n),
    decreases n,
{
    if n > 0 {
        lemma_ppm_cost_prefix_stable(s, t, n - 1);
        let c = context_at(s, n - 1);
        assert(context_at(t, n - 1) =~= c);
        lemma_counts_prefix(s, t, n - 1, c, s[n - 1]);
        assert(symbol_cost(t, n - 1) == symbol_cost(s, n - 1));
    }
}

/// The predicted cost is monotonically non-decreasing in input length:
/// appending symbols to a channel never lowers the model's cost, because
/// the cost of a position depends only on the bytes before it and every
/// per-symbol cost is non-negative.
pub proof fn lemma_ppm_cost_monotonic(s: Seq<u8>, t: Seq<u8>)
    requires
        s.is_prefix_of(t),
    ensures
        ppm_cost(s) <= ppm_cost(t),
{
    lemma_ppm_cost_prefix_stable(s, t, s.len() as int);
    lemma_ppm_cost_prefix_le(t, s.len() as int, t.len() as int);
}

/// The predicted cost is zero exactly for the empty channel. A non-empty
/// channel always costs at least the 8-bit escape charged for its first
/// position, whose context is empty and therefore unseen: the cost floor
/// that keeps the result finite and positive without ever dividing by
/// zero.
pub proof fn lemma_ppm_cost_zero_iff_empty(s: Seq<u8>)
    ensures
        ppm_cost(s) == 0 <==> s.len() == 0,
        s.len() > 0 ==> ppm_cost(s) >= 8,
{
    if s.len() > 0 {
        assert(context_count(s, 0, context_at(s, 0)) == 0);
        assert(symbol_cost(s, 0) == 8);
        assert(ppm_cost_prefix(s, 0) == 0);
        assert(ppm_cost_prefix(s, 1) == 8);
        lemma_ppm_cost_prefix_le(s, 1, s.len() as int);
    }
}

/// Smallest `k` with `count * 2^k >= total`, by doubling.
fn bits_needed(count: u64, total: u64) -> (k: u64)
    requires
        1 <= count,
    ensures
        k == ceil_log2_ratio(count as nat, total as nat),
        k <= 64,
{
    proof {
        assert(pow2(64) == 0x1_0000_0000_0000_0000) by {
            vstd::arithmetic::power2::lemma2_to64_rest();
        }
        assert(total <= count * pow2(64)) by (nonlinear_arith)
            requires
                1 <= count,
                total <= 0xffff_ffff_ffff_ffff,
                pow2(64) == 0x1_0000_0000_0000_0000,
        ;
        lemma_ceil_log2_ratio_bound(count as nat, total as nat, 64);
    }
    let mut k: u64 = 0;
    let mut x: u128 = count as u128;
    while x < total as u128
        invariant
            1 <= count,
            count as u128 <= x,
            x <= u64::MAX as u128 * 2,
            ceil_log2_ratio(count as nat, total as nat) == k + ceil_log2_ratio(
                x as nat,
                total as nat,
            ),
            ceil_log2_ratio(count as nat, total as nat) <= 64,
        decreases 2 * (total as int) - x as int,
    {
        proof {
            lemma_ceil_log2_ratio_double(x as nat, total as nat);
        }
        x = x * 2;
        k = k + 1;
    }
    k
}

/// The `u64` encoding of the context of position `i`, as `context_key`
/// gives it: the up-to-three preceding bytes in base 256, tagged with
/// the context length.
fn context_key_at(data: &Vec<u8>, i: usize) -> (key: u64)
    requires
        i < data@.len(),
    ensures
        key == context_key_u64(context_at(data@, i as int)),
        key == context_key(context_at(data@, i as int)),
{
    let lo: usize = if i >= 3 { i - 3 } else { 0 };
    proof {
        assert(lo == context_start(i as int));
    }
    let mut value: u64 = 0;
    let mut j: usize = lo;
    while j < i
        invariant
            lo <= j <= i,
            i < data@.len(),
            lo == context_start(i as int),
            i - lo <= 3,
            value == bytes_value(data@.subrange(lo as int, j as int)),
        decreases i - j,
    {
        proof {
            let prefix = data@.subrange(lo as int, j as int);
            let extended = data@.subrange(lo as int, j as int + 1);
            lemma_bytes_value_bound(prefix);
            assert(extended.drop_last() =~= prefix);
            assert(extended.last() == data@[j as int]);
        }
        value = value * 256 + data[j] as u64;
        j += 1;
    }
    proof {
        lemma_bytes_value_bound(data@.subrange(lo as int, i as int));
        assert(context_at(data@, i as int) == data@.subrange(lo as int, i as int));
    }
    (i - lo) as u64 * 0x100_0000 + value
}

/// Invariant tying the two halves of the `ContextTable` to the model:
/// after the first `i` positions of `s` have been recorded, `pairs` holds
/// exactly the non-zero (context, symbol) counts and `totals` exactly the
/// non-zero per-context totals.
pub open spec fn table_inv(
    pairs: Map<u64, u64>,
    totals: Map<u64, u64>,
    s: Seq<u8>,
    i: int,
) -> bool {
    &&& forall|c: Seq<u8>, v: u8|
        c.len() <= 3 ==> {
            &&& (#[trigger] pair_count(s, i, c, v) == 0 ==> !pairs.contains_key(pair_key_u64(c, v)))
            &&& (pair_count(s, i, c, v) > 0 ==> pairs.contains_key(pair_key_u64(c, v))
                && pairs[pair_key_u64(c, v)] == pair_count(s, i, c, v))
        }
    &&& forall|c: Seq<u8>|
        c.len() <= 3 ==> {
            &&& (#[trigger] context_count(s, i, c) == 0 ==> !totals.contains_key(context_key_u64(c)))
            &&& (context_count(s, i, c) > 0 ==> totals.contains_key(context_key_u64(c))
                && totals[context_key_u64(c)] == context_count(s, i, c))
        }
}

/// Predicts the size an ideal entropy coder driven by the adaptive
/// order-3 context model would need for this channel, in whole-bit
/// units per symbol, without emitting a bitstream. The result is exactly
/// the model cost `ppm_cost`: 8 bits for every symbol coded in an unseen
/// state, `ceil(|log2(count / total)|)` otherwise, counts taken before
/// each update. Returns 0 only for an empty channel.
pub fn ppm_compress(data: &Vec<u8>) -> (cost: usize)
    requires
        data@.len() * 64 <= usize::MAX,
    ensures
        cost == ppm_cost(data@),
{
    let ghost s = data@;
    let mut pairs: HashMap<u64, u64> = HashMap::new();
    let mut totals: HashMap<u64, u64> = HashMap::new();
    let mut cost: usize = 0;
    let mut i: usize = 0;
    while i < data.len()
        invariant
            i <= s.len(),
            s == data@,
            s.len() * 64 <= usize::MAX,
            cost == ppm_cost_prefix(s, i as int),
            cost <= 64 * i,
            table_inv(pairs@, totals@, s, i as int),
        decreases s.len() - i,
    {
        let ghost ctx = context_at(s, i as int);
        let sym: u8 = data[i];
        let ckey: u64 = context_key_at(data, i);
        proof {
            lemma_bytes_value_bound(ctx);
            assert(ctx.len() <= 3);
            assert(pair_key(ctx, sym) == 256 * context_key(ctx) + sym);
            lemma_counts_le(s, i as int, ctx, sym);
        }
        let pkey: u64 = ckey * 256 + sym as u64;
        proof {
            assert(pkey == pair_key_u64(ctx, sym));
        }
        let total: u64 = match totals.get(&ckey) {
            Some(t) => *t,
            None => 0,
        };
        let cnt: u64 = match pairs.get(&pkey) {
            Some(n) => *n,
            None => 0,
        };
        proof {
            assert(total == context_count(s, i as int, ctx));
            assert(cnt == pair_count(s, i as int, ctx, sym));
        }
        let step: u64 = if total == 0 || cnt == 0 {
            8
        } else {
            bits_needed(cnt, total)
        };
        proof {
            assert(step == symbol_cost(s, i as int));
            lemma_symbol_cost_bound(s, i as int);
        }
        cost = cost + step as usize;
        pairs.insert(pkey, cnt + 1);
        totals.insert(ckey, total + 1);
        proof {
            assert forall|c: Seq<u8>, v: u8| c.len() <= 3 implies {
                &&& (#[trigger] pair_count(s, i + 1, c, v) == 0 ==> !pairs@.contains_key(
                    pair_key_u64(c, v),
                ))
                &&& (pair_count(s, i + 1, c, v) > 0 ==> pairs@.contains_key(pair_key_u64(c, v))
                    && pairs@[pair_key_u64(c, v)] == pair_count(s, i + 1, c, v))
            } by {
                assert(pair_count(s, i + 1, c, v) == pair_count(s, i as int, c, v) + if context_at(
                    s,
                    i as int,
                ) == c && s[i as int] == v {
                    1nat
                } else {
                    0nat
                });
                if c == ctx && v == sym {
                    assert(pairs@[pair_key_u64(c, v)] == cnt + 1);
                } else {
                    if pair_key_u64(c, v) == pair_key_u64(ctx, sym) {
                        lemma_pair_key_injective(c, v, ctx, sym);
                    }
                    assert(pair_key_u64(c, v) != pair_key_u64(ctx, sym));
                }
            }
            assert forall|c: Seq<u8>| c.len() <= 3 implies {
                &&& (#[trigger] context_count(s, i + 1, c) == 0 ==> !totals@.contains_key(
                    context_key_u64(c),
                ))
                &&& (context_count(s, i + 1, c) > 0 ==> totals@.contains_key(context_key_u64(c))
                    && totals@[context_key_u64(c)] == context_count(s, i + 1, c))
            } by {
                assert(context_count(s, i + 1, c) == context_count(s, i as int, c) + if context_at(
                    s,
                    i as int,
                ) == c {
                    1nat
                } else {
                    0nat
                });
                if c == ctx {
                    assert(totals@[context_key_u64(c)] == total + 1);
                } else {
                    if context_key_u64(c) == context_key_u64(ctx) {
                        lemma_context_key_injective(c, ctx);
                    }
                    assert(context_key_u64(c) != context_key_u64(ctx));
                }
            }
        }
        i += 1;
    }
    cost
}

} // verus!
