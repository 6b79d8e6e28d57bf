use vstd::arithmetic::power2::pow2;
use vstd::prelude::*;

use crate::model::{
    accepts, first_accepted, fraction, interval_size, offset, threshold, valid_interval, value_of,
    word,
};

verus! {

/// A single-point interval `[lo, lo]` never rejects: its threshold is zero,
/// the first draw of any sequence is accepted, and the value is `lo`.
pub proof fn lemma_single_point_interval(lo: u64, draws: Seq<u64>)
    requires
        draws.len() >= 1,
    ensures
        threshold(interval_size(lo, lo)) == 0,
        first_accepted(interval_size(lo, lo), draws, 0),
        value_of(lo, interval_size(lo, lo), draws[0] as int) == lo,
{
    let x = draws[0] as int;
    assert(interval_size(lo, lo) == 1);
    assert(1 * x == x);
    vstd::arithmetic::div_mod::lemma_mod_bound(x, word());
    assert(fraction(1, x) >= 0);
    assert(offset(1, x) == 0) by {
        vstd::arithmetic::div_mod::lemma_basic_div(x, word());
    }
}

/// When the interval size is a power of two, `2^64` is a multiple of it:
/// the threshold is zero and every draw is accepted, so the redraw loop is
/// never entered.
pub proof fn lemma_power_of_two_size(lo: u64, hi: u64, k: nat)
    requires
        valid_interval(lo, hi),
        interval_size(lo, hi) == pow2(k),
    ensures
        threshold(interval_size(lo, hi)) == 0,
        forall|x: u64| accepts(interval_size(lo, hi), x as int),
{
    let s = interval_size(lo, hi);
    vstd::arithmetic::power2::lemma2_to64();
    vstd::arithmetic::power2::lemma2_to64_rest();
    assert(pow2(64) == word());
    if k >= 64 {
        vstd::arithmetic::power2::lemma_pow2_adds(64, (k - 64) as nat);
        vstd::arithmetic::power2::lemma_pow2_pos((k - 64) as nat);
        vstd::arithmetic::mul::lemma_mul_increases(pow2((k - 64) as nat) as int, word());
        assert(false);
    }
    let rest = (64 - k) as nat;
    vstd::arithmetic::power2::lemma_pow2_adds(k, rest);
    vstd::arithmetic::power2::lemma_pow2_pos(k);
    assert(word() == pow2(k) * pow2(rest));
    vstd::arithmetic::mul::lemma_mul_is_commutative(pow2(k) as int, pow2(rest) as int);
    vstd::arithmetic::div_mod::lemma_mod_multiples_basic(pow2(rest) as int, pow2(k) as int);
    assert forall|x: u64| accepts(s, x as int) by {
        vstd::arithmetic::div_mod::lemma_mod_bound(s * x, word());
    }
}

/// The first accepted position in a draw sequence is unique, so the value
/// sampled from a sequence and the number of draws it consumes are fixed by
/// the interval and the sequence alone.
pub proof fn lemma_first_accepted_unique(s: int, draws: Seq<u64>, i: int, j: int)
    requires
        first_accepted(s, draws, i),
        first_accepted(s, draws, j),
    ensures
        i == j,
{
    if i < j {
        assert(!accepts(s, draws[i] as int));
    } else if j < i {
        assert(!accepts(s, draws[j] as int));
    }
}

/// Replaying a draw sequence with further draws appended gives the same
/// outcome: draws after the accepted one are never looked at.
pub proof fn lemma_first_accepted_extends(s: int, draws: Seq<u64>, more: Seq<u64>, i: int)
    requires
        first_accepted(s, draws, i),
    ensures
        first_accepted(s, draws + more, i),
        (draws + more)[i] == draws[i],
{
    assert forall|j: int| 0 <= j < i implies !accepts(s, #[trigger] (draws + more)[j] as int) by {
        assert((draws + more)[j] == draws[j]);
    }
}

/// The smallest draw whose product with `s` reaches `v * 2^64 + threshold(s)`:
/// the first accepted draw that yields offset `v`.
pub open spec fn first_draw_for(s: int, v: int) -> int {
    (v * word() + threshold(s) + s - 1) / s
}

/// The method is exact: for every offset `v` in `[0, s)`, the accepted draws
/// that yield `v` are exactly the `2^64 / s` consecutive values starting at
/// `first_draw_for(s, v)`. Every outcome is thus produced by the same number
/// of draws, and a uniform source gives a uniform result.
pub proof fn lemma_each_offset_has_equal_share(s: int, v: int, x: int)
    requires
        1 <= s < word(),
        0 <= v < s,
        0 <= x < word(),
    ensures
        (accepts(s, x) && offset(s, x) == v) <==> (first_draw_for(s, v) <= x < first_draw_for(
            s,
            v,
        ) + word() / s),
{
    let w = word();
    let t = threshold(s);
    let q = w / s;
    let p = s * x;
    let a = first_draw_for(s, v);
    let base = v * w + t;
    vstd::arithmetic::div_mod::lemma_fundamental_div_mod(w, s);
    vstd::arithmetic::div_mod::lemma_mod_bound(w, s);
    assert(w == s * q + t);
    // The product lands in the accepted block of offset `v` exactly when it
    // lies in `[v * 2^64 + t, (v + 1) * 2^64)`.
    assert(0 <= p) by (nonlinear_arith)
        requires
            p == s * x,
            1 <= s,
            0 <= x,
    ;
    vstd::arithmetic::div_mod::lemma_fundamental_div_mod(p, w);
    vstd::arithmetic::div_mod::lemma_mod_bound(p, w);
    let d = p / w;
    let r = p % w;
    assert(p == w * d + r);
    assert((d == v && r >= t) <==> (base <= p < v * w + w)) by (nonlinear_arith)
        requires
            p == w * d + r,
            0 <= r < w,
            base == v * w + t,
            0 <= t < w,
            w > 0,
    ;
    // `a` is the least multiplier of `s` that reaches `base`.
    vstd::arithmetic::div_mod::lemma_fundamental_div_mod(base + s - 1, s);
    vstd::arithmetic::div_mod::lemma_mod_bound(base + s - 1, s);
    assert(s * a >= base && s * a - s < base);
    assert((a <= x) <==> (base <= p)) by (nonlinear_arith)
        requires
            p == s * x,
            s * a >= base,
            s * a - s < base,
            s >= 1,
    ;
    assert((x < a + q) <==> (p < v * w + w)) by (nonlinear_arith)
        requires
            p == s * x,
            s * a >= base,
            s * a - s < base,
            base == v * w + t,
            w == s * q + t,
            s >= 1,
    ;
}

} // verus!
