//! Block sizes: the power of two to which a block of samples is padded
//! before it is transformed.

use vstd::arithmetic::power2::{lemma_pow2_strictly_increases, lemma_pow2_unfold, pow2};
use vstd::prelude::*;

verus! {

/// The first of `p`, `2 * p`, `4 * p`, ... that is at least `n`.
pub open spec fn first_double_reaching(p: nat, n: nat) -> nat
    decreases (if n > p { n - p } else { 0 }),
{
    if p == 0 || p >= n {
        p
    } else {
        first_double_reaching(2 * p, n)
    }
}

/// The least power of two that is at least `n`; for `n == 0` that is 1.
pub open spec fn spec_next_power_of_two(n: nat) -> nat {
    first_double_reaching(1, n)
}

/// The length to which a block of `window_size` samples is padded so that
/// its circular convolution with `ir_size` taps does not wrap around: the
/// least power of two that holds the `ir_size + window_size - 1` samples of
/// the linear convolution.
pub open spec fn spec_padded_window_size(ir_size: nat, window_size: nat) -> nat {
    spec_next_power_of_two((ir_size + window_size - 1) as nat)
}

/// The sizes for which the padded length is defined and can be worked with:
/// there is at least one tap or one sample to a block, the padded length is
/// a machine integer, and both the taps and a block fit into it. With at
/// least one tap and one sample to a block the last two always hold.
pub open spec fn sizes_fit(ir_size: nat, window_size: nat) -> bool {
    &&& ir_size + window_size >= 1
    &&& spec_padded_window_size(ir_size, window_size) <= usize::MAX
    &&& ir_size <= spec_padded_window_size(ir_size, window_size)
    &&& window_size <= spec_padded_window_size(ir_size, window_size)
}

proof fn lemma_first_double_reaching(k: nat, n: nat)
    requires
        k == 0 || pow2((k - 1) as nat) < n,
    ensures
        first_double_reaching(pow2(k), n) >= pow2(k),
        first_double_reaching(pow2(k), n) >= n,
        n >= 1 ==> first_double_reaching(pow2(k), n) < 2 * n,
        exists|e: nat| first_double_reaching(pow2(k), n) == pow2(e),
        forall|e: nat| pow2(e) >= n ==> #[trigger] pow2(e) >= first_double_reaching(pow2(k), n),
    decreases (if n > pow2(k) { n - pow2(k) } else { 0 }),
{
    let p = pow2(k);
    vstd::arithmetic::power2::lemma_pow2_pos(k);
    if p >= n {
        if k > 0 {
            lemma_pow2_unfold(k);
        } else {
            vstd::arithmetic::power2::lemma2_to64();
        }
        assert forall|e: nat| pow2(e) >= n implies #[trigger] pow2(e) >= p by {
            if e < k {
                if e < k - 1 {
                    lemma_pow2_strictly_increases(e, (k - 1) as nat);
                }
            } else if e > k {
                lemma_pow2_strictly_increases(k, e);
            }
        }
    } else {
        lemma_pow2_unfold(k + 1);
        lemma_first_double_reaching(k + 1, n);
    }
}

/// `spec_next_power_of_two(n)` is a power of two, is at least `n`, and no
/// power of two that is at least `n` is smaller. It is therefore less than
/// twice `n`, unless `n` is zero.
pub proof fn lemma_next_power_of_two_is_least(n: nat)
    ensures
        exists|e: nat| spec_next_power_of_two(n) == pow2(e),
        spec_next_power_of_two(n) >= n,
        spec_next_power_of_two(n) >= 1,
        n >= 1 ==> spec_next_power_of_two(n) < 2 * n,
        forall|e: nat| pow2(e) >= n ==> #[trigger] pow2(e) >= spec_next_power_of_two(n),
{
    vstd::arithmetic::power2::lemma2_to64();
    lemma_first_double_reaching(0, n);
}

/// With at least one tap and one sample to a block, the taps and the block
/// always fit into the padded length, so only its size as a machine integer
/// is in question.
pub proof fn lemma_sizes_fit_with_taps_and_samples(ir_size: nat, window_size: nat)
    requires
        ir_size >= 1,
        window_size >= 1,
        spec_padded_window_size(ir_size, window_size) <= usize::MAX,
    ensures
        sizes_fit(ir_size, window_size),
{
    lemma_next_power_of_two_is_least((ir_size + window_size - 1) as nat);
}

proof fn lemma_first_double_at_least(p: nat, n: nat)
    ensures
        first_double_reaching(p, n) >= p,
    decreases (if n > p { n - p } else { 0 }),
{
    if !(p == 0 || p >= n) {
        lemma_first_double_at_least(2 * p, n);
    }
}

/// The least power of two that is at least `n`.
pub fn next_power_of_two(n: usize) -> (p: usize)
    requires
        spec_next_power_of_two(n as nat) <= usize::MAX,
    ensures
        p == spec_next_power_of_two(n as nat),
{
    let mut p: usize = 1;
    while p < n
        invariant
            p >= 1,
            first_double_reaching(p as nat, n as nat) == spec_next_power_of_two(n as nat),
            spec_next_power_of_two(n as nat) <= usize::MAX,
        decreases (if n > p { n - p } else { 0 }),
    {
        proof {
            lemma_first_double_at_least(2 * p as nat, n as nat);
        }
        p = 2 * p;
    }
    p
}

/// The least power of two that is at least `n`, or `None` when that power
/// is too large for a machine integer.
pub fn checked_next_power_of_two(n: usize) -> (p: Option<usize>)
    ensures
        p == if spec_next_power_of_two(n as nat) <= usize::MAX {
            Some(spec_next_power_of_two(n as nat) as usize)
        } else {
            None
        },
{
    let mut p: usize = 1;
    while p < n
        invariant
            p >= 1,
            first_double_reaching(p as nat, n as nat) == spec_next_power_of_two(n as nat),
        decreases (if n > p { n - p } else { 0 }),
    {
        proof {
            lemma_first_double_at_least(2 * p as nat, n as nat);
        }
        if p > usize::MAX / 2 {
            return None;
        }
        p = 2 * p;
    }
    Some(p)
}

/// The padded length for `ir_size` taps and blocks of `window_size` samples.
pub fn padded_window_size(ir_size: usize, window_size: usize) -> (padded: usize)
    requires
        sizes_fit(ir_size as nat, window_size as nat),
    ensures
        padded == spec_padded_window_size(ir_size as nat, window_size as nat),
{
    proof {
        lemma_next_power_of_two_is_least((ir_size + window_size - 1) as nat);
    }
    if window_size == 0 {
        next_power_of_two(ir_size - 1)
    } else {
        next_power_of_two(ir_size + (window_size - 1))
    }
}

/// The padded length for `ir_size` taps and blocks of `window_size` samples,
/// or `None` for sizes that do not fit.
pub fn checked_padded_window_size(ir_size: usize, window_size: usize) -> (padded: Option<usize>)
    ensures
        padded == if sizes_fit(ir_size as nat, window_size as nat) {
            Some(spec_padded_window_size(ir_size as nat, window_size as nat) as usize)
        } else {
            None
        },
{
    if ir_size == 0 && window_size == 0 {
        return None;
    }
    proof {
        lemma_next_power_of_two_is_least((ir_size + window_size - 1) as nat);
    }
    let samples: usize = if window_size == 0 {
        ir_size - 1
    } else if ir_size <= usize::MAX - (window_size - 1) {
        ir_size + (window_size - 1)
    } else {
        return None;
    };
    match checked_next_power_of_two(samples) {
        Some(padded) => if ir_size <= padded && window_size <= padded {
            Some(padded)
        } else {
            None
        },
        None => None,
    }
}

} // verus!
