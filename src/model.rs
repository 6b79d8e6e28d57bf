use vstd::prelude::*;

verus! {

/// `2^64`: the number of distinct 64-bit draws.
pub open spec fn word() -> int {
    0x1_0000_0000_0000_0000int
}

/// Number of outcomes in the closed interval `[lo, hi]`.
pub open spec fn interval_size(lo: u64, hi: u64) -> int {
    hi - lo + 1
}

/// An interval the sampler accepts: non-empty, with a size below `2^64`
/// so that it fits in a `u64`.
pub open spec fn valid_interval(lo: u64, hi: u64) -> bool {
    lo <= hi && interval_size(lo, hi) < word()
}

/// High half of the 128-bit product `s * x`: the candidate offset in `[0, s)`.
pub open spec fn offset(s: int, x: int) -> int {
    (s * x) / word()
}

/// Low half of the 128-bit product `s * x`: the fractional part used by the
/// rejection test.
pub open spec fn fraction(s: int, x: int) -> int {
    (s * x) % word()
}

/// Rejection threshold `2^64 mod s`: draws whose fraction falls below it
/// are the ones that would bias the result.
pub open spec fn threshold(s: int) -> int {
    word() % s
}

/// A draw `x` is kept for an interval of size `s` when its fraction is at
/// least the threshold.
pub open spec fn accepts(s: int, x: int) -> bool {
    fraction(s, x) >= threshold(s)
}

/// The value produced for the interval starting at `lo`, of size `s`, by an
/// accepted draw `x`.
pub open spec fn value_of(lo: u64, s: int, x: int) -> int {
    lo + offset(s, x)
}

/// `i` is the position of the first accepted draw in `draws`.
pub open spec fn first_accepted(s: int, draws: Seq<u64>, i: int) -> bool {
    &&& 0 <= i < draws.len()
    &&& accepts(s, draws[i] as int)
    &&& forall|j: int| 0 <= j < i ==> !accepts(s, #[trigger] draws[j] as int)
}

/// The offset of any draw lies in `[0, s)`.
pub proof fn lemma_offset_below_size(s: int, x: int)
    requires
        1 <= s < word(),
        0 <= x < word(),
    ensures
        0 <= offset(s, x) < s,
        0 <= fraction(s, x) < word(),
{
    assert(0 <= s * x) by (nonlinear_arith)
        requires
            1 <= s,
            0 <= x,
    ;
    assert(s * x < word() * s) by (nonlinear_arith)
        requires
            1 <= s,
            x < word(),
    ;
    vstd::arithmetic::div_mod::lemma_multiply_divide_lt(s * x, word(), s);
    vstd::arithmetic::div_mod::lemma_div_pos_is_pos(s * x, word());
    vstd::arithmetic::div_mod::lemma_mod_bound(s * x, word());
}

/// The threshold lies strictly below the interval size, so a draw whose
/// fraction reaches `s` is always accepted.
pub proof fn lemma_threshold_below_size(s: int)
    requires
        1 <= s < word(),
    ensures
        0 <= threshold(s) < s,
{
    vstd::arithmetic::div_mod::lemma_mod_bound(word(), s);
}

} // verus!
