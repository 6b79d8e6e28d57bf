use vstd::prelude::*;

use crate::model::{
    accepts, first_accepted, fraction, interval_size, lemma_offset_below_size,
    lemma_threshold_below_size, offset, threshold, valid_interval, value_of, word,
};
use crate::source::DrawSource;

verus! {

/// Splits the exact 128-bit product `s * x` into its high and low 64-bit
/// halves: the candidate offset and the fraction.
pub fn wide_product(s: u64, x: u64) -> (r: (u64, u64))
    requires
        s >= 1,
    ensures
        r.0 == offset(s as int, x as int),
        r.1 == fraction(s as int, x as int),
        r.0 < s,
{
    proof {
        lemma_offset_below_size(s as int, x as int);
    }
    assert((s as u128) * (x as u128) < 0x1_0000_0000_0000_0000_0000_0000_0000_0000int)
        by (nonlinear_arith)
        requires
            s < 0x1_0000_0000_0000_0000int,
            x < 0x1_0000_0000_0000_0000int,
    ;
    let m: u128 = (s as u128) * (x as u128);
    let shifted: u128 = m >> 64u32;
    let high = shifted as u64;
    let low = #[verifier::truncate] (m as u64);
    assert(shifted == m / 0x1_0000_0000_0000_0000u128 && low == m % 0x1_0000_0000_0000_0000u128)
        by (bit_vector)
        requires
            shifted == m >> 64u32,
            low == m as u64,
    ;
    (high, low)
}

/// Computes the rejection threshold `2^64 mod s` without a 128-bit
/// division, as `(2^64 - s) mod s` in wrapping unsigned arithmetic.
pub fn rejection_threshold(s: u64) -> (t: u64)
    requires
        s >= 1,
    ensures
        t == threshold(s as int),
        t < s,
{
    proof {
        vstd::arithmetic::div_mod::lemma_mod_sub_multiples_vanish(word(), s as int);
        lemma_threshold_below_size(s as int);
    }
    0u64.wrapping_sub(s) % s
}

/// Samples `[lo, hi]` from a fixed sequence of draws, as the sampler would
/// consume them from a source. Returns the value and the number of draws
/// used, or `None` when every draw is rejected.
pub fn sample_from_draws(lo: u64, hi: u64, draws: &[u64]) -> (r: Option<(u64, usize)>)
    requires
        valid_interval(lo, hi),
    ensures
        match r {
            Some((v, n)) => {
                &&& n >= 1
                &&& lo <= v <= hi
                &&& first_accepted(interval_size(lo, hi), draws@, n - 1)
                &&& v == value_of(lo, interval_size(lo, hi), draws@[n - 1] as int)
            },
            None => forall|i: int|
                0 <= i < draws@.len() ==> !accepts(interval_size(lo, hi), #[trigger] draws@[i] as int),
        },
{
    let ghost size = interval_size(lo, hi);
    let s = hi - lo + 1;
    if draws.len() == 0 {
        return None;
    }
    let (mut high, mut low) = wide_product(s, draws[0]);
    let mut used: usize = 1;
    if low < s {
        let t = rejection_threshold(s);
        while low < t
            invariant
                s == size,
                size == interval_size(lo, hi),
                1 <= size < word(),
                t == threshold(size),
                1 <= used <= draws@.len(),
                high == offset(size, draws@[used - 1] as int),
                low == fraction(size, draws@[used - 1] as int),
                forall|j: int| 0 <= j < used - 1 ==> !accepts(size, #[trigger] draws@[j] as int),
            decreases draws@.len() - used,
        {
            if used == draws.len() {
                assert(!accepts(size, draws@[used - 1] as int));
                return None;
            }
            let (h, l) = wide_product(s, draws[used]);
            high = h;
            low = l;
            used = used + 1;
        }
    } else {
        proof {
            lemma_threshold_below_size(size);
        }
    }
    proof {
        lemma_offset_below_size(size, draws@[used - 1] as int);
    }
    Some((lo + high, used))
}

/// Draws a value uniformly from the closed interval `[lo, hi]`.
///
/// Each draw is multiplied by the interval size in 128-bit precision; the
/// high half is the candidate offset. Only when the low half falls below the
/// size is the threshold `2^64 mod s` computed, and draws whose low half lies
/// under it are rejected and redrawn. The value returned is `lo` plus the
/// offset of the last draw taken, and every draw before it was rejected.
///
/// The redraw loop stops after `u64::MAX` rejections in a row and then keeps
/// the last candidate: `2^64` draws in all. With a uniform source each redraw
/// is rejected with probability below one half, so that bound is never
/// reached in practice; it gives the loop a termination measure.
pub fn gen_range<R: DrawSource>(rng: &mut R, lo: u64, hi: u64) -> (v: u64)
    requires
        valid_interval(lo, hi),
    ensures
        lo <= v <= hi,
        final(rng).drawn().len() > old(rng).drawn().len(),
        final(rng).drawn().subrange(0, old(rng).drawn().len() as int) == old(rng).drawn(),
        v == value_of(lo, interval_size(lo, hi), final(rng).drawn().last() as int),
        forall|j: int|
            old(rng).drawn().len() <= j < final(rng).drawn().len() - 1 ==> !accepts(
                interval_size(lo, hi),
                #[trigger] final(rng).drawn()[j] as int,
            ),
        accepts(interval_size(lo, hi), final(rng).drawn().last() as int)
            || final(rng).drawn().len() - old(rng).drawn().len() == word(),
        threshold(interval_size(lo, hi)) == 0
            ==> final(rng).drawn().len() == old(rng).drawn().len() + 1,
        accepts(interval_size(lo, hi), final(rng).drawn().last() as int) ==> first_accepted(
            interval_size(lo, hi),
            final(rng).drawn().subrange(old(rng).drawn().len() as int, final(rng).drawn().len() as int),
            final(rng).drawn().len() - old(rng).drawn().len() - 1,
        ),
{
    let ghost size = interval_size(lo, hi);
    let ghost before = rng.drawn();
    let s = hi - lo + 1;
    let mut x = rng.next_draw();
    let (mut high, mut low) = wide_product(s, x);
    proof {
        lemma_threshold_below_size(size);
    }
    if low < s {
        let t = rejection_threshold(s);
        let mut rejected: u64 = 0;
        while low < t && rejected < u64::MAX
            invariant
                s == size,
                size == interval_size(lo, hi),
                1 <= size < word(),
                t == threshold(size),
                rng.drawn().len() == before.len() + 1 + rejected,
                t == 0 ==> rejected == 0,
                rng.drawn().subrange(0, before.len() as int) == before,
                x == rng.drawn().last(),
                high == offset(size, x as int),
                low == fraction(size, x as int),
                forall|j: int|
                    before.len() <= j < rng.drawn().len() - 1 ==> !accepts(
                        size,
                        #[trigger] rng.drawn()[j] as int,
                    ),
            decreases u64::MAX - rejected,
        {
            let ghost prev = rng.drawn();
            assert(!accepts(size, prev.last() as int));
            x = rng.next_draw();
            assert(rng.drawn().subrange(0, before.len() as int) =~= prev.subrange(
                0,
                before.len() as int,
            ));
            assert forall|j: int| before.len() <= j < rng.drawn().len() - 1 implies !accepts(
                size,
                #[trigger] rng.drawn()[j] as int,
            ) by {
                assert(rng.drawn()[j] == prev[j]);
            }
            let (h, l) = wide_product(s, x);
            high = h;
            low = l;
            rejected = rejected + 1;
        }
    } else {
        assert(rng.drawn().subrange(0, before.len() as int) =~= before);
    }
    proof {
        lemma_offset_below_size(size, x as int);
        let taken = rng.drawn().subrange(before.len() as int, rng.drawn().len() as int);
        assert forall|j: int| 0 <= j < taken.len() - 1 implies !accepts(
            size,
            #[trigger] taken[j] as int,
        ) by {
            assert(taken[j] == rng.drawn()[before.len() + j]);
        }
        assert(taken[taken.len() - 1] == rng.drawn().last());
    }
    lo + high
}

} // verus!
