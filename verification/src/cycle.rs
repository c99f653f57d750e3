//! Stepping an index round a ring of `n` positions.
//!
//! Every cursor of this crate (the list cursors and the session index) moves
//! by these two steps, so the laws proved here hold of all of them.

use vstd::arithmetic::div_mod::{
    lemma_add_mod_noop_right, lemma_mod_add_multiples_vanish, lemma_mod_bound, lemma_mod_self_0,
    lemma_small_mod,
};
use vstd::prelude::*;

verus! {

/// The position after `i` on a ring of `n` positions: `(i + 1) mod n`.
pub open spec fn next_index(i: int, n: int) -> int
    recommends
        n > 0,
{
    (i + 1) % n
}

/// The position before `i` on a ring of `n` positions: `(i - 1) mod n`, where
/// `mod` is the mathematical remainder, which is never negative.
pub open spec fn prev_index(i: int, n: int) -> int
    recommends
        n > 0,
{
    (i - 1) % n
}

/// The position reached from `i` by `k` forward steps.
pub open spec fn advance(i: int, n: int, k: nat) -> int
    recommends
        n > 0,
    decreases k,
{
    if k == 0 {
        i
    } else {
        next_index(advance(i, n, (k - 1) as nat), n)
    }
}

/// A forward step leaves the ring only at its last position, where it wraps
/// to the first.
pub proof fn lemma_next_index(i: int, n: int)
    requires
        0 <= i < n,
    ensures
        next_index(i, n) == if i + 1 == n {
            0
        } else {
            i + 1
        },
        0 <= next_index(i, n) < n,
{
    if i + 1 == n {
        lemma_mod_self_0(n);
    } else {
        lemma_small_mod((i + 1) as nat, n as nat);
    }
}

/// A backward step leaves the ring only at its first position, where it
/// wraps to the last.
pub proof fn lemma_prev_index(i: int, n: int)
    requires
        0 <= i < n,
    ensures
        prev_index(i, n) == if i == 0 {
            n - 1
        } else {
            i - 1
        },
        0 <= prev_index(i, n) < n,
{
    if i == 0 {
        lemma_mod_add_multiples_vanish(-1, n);
        lemma_small_mod((n - 1) as nat, n as nat);
    } else {
        lemma_small_mod((i - 1) as nat, n as nat);
    }
}

/// A backward step undoes a forward step, and a forward step undoes a
/// backward step, at every position of the ring, the two ends included.
pub proof fn lemma_steps_cancel(i: int, n: int)
    requires
        0 <= i < n,
    ensures
        prev_index(next_index(i, n), n) == i,
        next_index(prev_index(i, n), n) == i,
{
    lemma_next_index(i, n);
    lemma_prev_index(i, n);
    lemma_prev_index(next_index(i, n), n);
    lemma_next_index(prev_index(i, n), n);
}

/// `k` forward steps from `i` end at `(i + k) mod n`.
pub proof fn lemma_advance(i: int, n: int, k: nat)
    requires
        0 <= i < n,
    ensures
        advance(i, n, k) == (i + k) % n,
        0 <= advance(i, n, k) < n,
    decreases k,
{
    if k == 0 {
        lemma_small_mod(i as nat, n as nat);
    } else {
        lemma_advance(i, n, (k - 1) as nat);
        lemma_add_mod_noop_right(1, i + k - 1, n);
        lemma_mod_bound(i + k, n);
    }
}

/// As many forward steps as the ring has positions lead back to the start.
pub proof fn lemma_full_turn(i: int, n: int)
    requires
        0 <= i < n,
    ensures
        advance(i, n, n as nat) == i,
{
    lemma_advance(i, n, n as nat);
    lemma_mod_add_multiples_vanish(i, n);
    lemma_small_mod(i as nat, n as nat);
}

/// Moves `i` one position forward, wrapping from the last position to the
/// first.
pub fn step_forward(i: usize, n: usize) -> (r: usize)
    requires
        i < n,
    ensures
        r == next_index(i as int, n as int),
        r < n,
{
    proof {
        lemma_next_index(i as int, n as int);
    }
    if i + 1 == n {
        0
    } else {
        i + 1
    }
}

/// Moves `i` one position backward, wrapping from the first position to the
/// last.
pub fn step_backward(i: usize, n: usize) -> (r: usize)
    requires
        i < n,
    ensures
        r == prev_index(i as int, n as int),
        r < n,
{
    proof {
        lemma_prev_index(i as int, n as int);
    }
    if i == 0 {
        n - 1
    } else {
        i - 1
    }
}

} // verus!
