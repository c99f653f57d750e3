//! Sets of indices written as binary numerals.
//!
//! Two index domains occur in this crate. Positions in a list count from 0,
//! and position `i` stands at binary digit `i`. Identifiers of the remote
//! catalogue count from 1, and identifier `i` stands at binary digit `i - 1`.
//! Both are the same numeral read from a different `origin`; the law
//! [`lemma_bitmask_shift`] moves a set from one domain to the other.

use vstd::arithmetic::div_mod::{
    lemma_basic_div, lemma_fundamental_div_mod_converse, lemma_hoist_over_denominator,
    lemma_mod_multiples_vanish,
};
use vstd::arithmetic::power2::{lemma_pow2_adds, lemma_pow2_pos, lemma_pow2_unfold, pow2};
use vstd::prelude::*;

verus! {

/// The value of the binary numeral of `width` digits whose digit `k` is 1
/// exactly when `origin + k` belongs to `s`: the sum of `2^k` over those `k`.
/// Digit 0 is the least significant one.
pub open spec fn bitmask(s: Set<usize>, origin: nat, width: nat) -> nat
    recommends
        origin + width <= usize::MAX + 1,
    decreases width,
{
    if width == 0 {
        0
    } else {
        let k = (width - 1) as nat;
        bitmask(s, origin, k) + if s.contains((origin + k) as usize) {
            pow2(k)
        } else {
            0
        }
    }
}

/// The members of `s` that are at least 1, each lowered by 1.
pub open spec fn lowered(s: Set<usize>) -> Set<usize> {
    Set::new(|i: usize| i < usize::MAX && s.contains((i + 1) as usize))
}

/// The values at the first `k` places of `keys`.
pub(crate) open spec fn prefix_set(keys: Seq<&usize>, k: int) -> Set<usize> {
    Set::new(|v: usize| exists|i: int| 0 <= i < k && *keys[i] == v)
}

/// No value stands at no place, and the values at all places are the values
/// of the sequence.
pub(crate) proof fn lemma_prefix_set_ends(keys: Seq<&usize>)
    ensures
        prefix_set(keys, 0) == Set::<usize>::empty(),
        prefix_set(keys, keys.len() as int) == keys.unref().to_set(),
{
    assert(prefix_set(keys, 0) =~= Set::<usize>::empty());
    let all = prefix_set(keys, keys.len() as int);
    let values = keys.unref();
    assert forall|v: usize| all.contains(v) <==> values.to_set().contains(v) by {
        if all.contains(v) {
            let i = choose|i: int| 0 <= i < keys.len() && *keys[i] == v;
            assert(values[i] == v);
        }
        if values.to_set().contains(v) {
            let i = choose|i: int| 0 <= i < values.len() && values[i] == v;
            assert(*keys[i] == v);
        }
    }
    assert(all =~= values.to_set());
}

/// Where no value occurs twice, the value at place `k` is new to the values
/// before it, and joins them.
pub(crate) proof fn lemma_prefix_set_step(keys: Seq<&usize>, k: int)
    requires
        0 <= k < keys.len(),
        keys.no_duplicates(),
    ensures
        !prefix_set(keys, k).contains(*keys[k]),
        prefix_set(keys, k + 1) == prefix_set(keys, k).insert(*keys[k]),
{
    let before = prefix_set(keys, k);
    let after = prefix_set(keys, k + 1);
    assert forall|v: usize| after.contains(v) <==> before.insert(*keys[k]).contains(v) by {
        if after.contains(v) {
            let i = choose|i: int| 0 <= i < k + 1 && *keys[i] == v;
            if i < k {
                assert(before.contains(v));
            }
        }
        if before.contains(v) {
            let i = choose|i: int| 0 <= i < k && *keys[i] == v;
            assert(0 <= i < k + 1 && *keys[i] == v);
        }
        if v == *keys[k] {
            assert(0 <= k < k + 1 && *keys[k] == v);
        }
    }
    assert(after =~= before.insert(*keys[k]));
}

/// A numeral of `width` digits is less than `2^width`.
pub proof fn lemma_bitmask_bound(s: Set<usize>, origin: nat, width: nat)
    ensures
        bitmask(s, origin, width) < pow2(width),
    decreases width,
{
    if width == 0 {
        lemma_pow2_pos(0);
    } else {
        lemma_bitmask_bound(s, origin, (width - 1) as nat);
        lemma_pow2_unfold(width);
    }
}

/// The numeral depends on the set alone, and of the set only on the members
/// from `origin` up to `origin + width`: two sets that agree there have the
/// same numeral.
pub proof fn lemma_bitmask_agree(s: Set<usize>, t: Set<usize>, origin: nat, width: nat)
    requires
        origin + width <= usize::MAX + 1,
        forall|i: usize| origin <= i < origin + width ==> (s.contains(i) <==> t.contains(i)),
    ensures
        bitmask(s, origin, width) == bitmask(t, origin, width),
    decreases width,
{
    if width > 0 {
        lemma_bitmask_agree(s, t, origin, (width - 1) as nat);
    }
}

/// Digits beyond the last member are 0 and add nothing: a numeral of `wide`
/// digits equals the one of `width` digits where the set has no member from
/// `origin + width` on.
pub proof fn lemma_bitmask_widen(s: Set<usize>, origin: nat, width: nat, wide: nat)
    requires
        origin + wide <= usize::MAX + 1,
        width <= wide,
        forall|i: usize| s.contains(i) ==> i < origin + width,
    ensures
        bitmask(s, origin, wide) == bitmask(s, origin, width),
    decreases wide,
{
    if width < wide {
        lemma_bitmask_widen(s, origin, width, (wide - 1) as nat);
    }
}

/// The empty set is written as 0.
pub proof fn lemma_bitmask_empty(origin: nat, width: nat)
    ensures
        bitmask(Set::<usize>::empty(), origin, width) == 0,
    decreases width,
{
    if width > 0 {
        lemma_bitmask_empty(origin, (width - 1) as nat);
    }
}

/// A new member `x` adds `2^(x - origin)` to the numeral.
pub proof fn lemma_bitmask_insert(s: Set<usize>, origin: nat, width: nat, x: usize)
    requires
        origin + width <= usize::MAX + 1,
        origin <= x < origin + width,
        !s.contains(x),
    ensures
        bitmask(s.insert(x), origin, width) == bitmask(s, origin, width) + pow2(
            (x - origin) as nat,
        ),
    decreases width,
{
    let k = (width - 1) as nat;
    if x == origin + k {
        lemma_bitmask_agree(s.insert(x), s, origin, k);
    } else {
        lemma_bitmask_insert(s, origin, k, x);
    }
}

/// Digit `k` of the numeral is 1 exactly when `origin + k` is a member, and
/// 0 otherwise.
pub proof fn lemma_bitmask_digit(s: Set<usize>, origin: nat, width: nat, k: nat)
    requires
        origin + width <= usize::MAX + 1,
        k < width,
    ensures
        (bitmask(s, origin, width) / pow2(k)) % 2 == if s.contains((origin + k) as usize) {
            1nat
        } else {
            0nat
        },
    decreases width,
{
    let top = (width - 1) as nat;
    let low = bitmask(s, origin, top);
    let all = bitmask(s, origin, width);
    let p = pow2(k) as int;
    lemma_pow2_pos(k);
    if k == top {
        lemma_bitmask_bound(s, origin, top);
        if s.contains((origin + k) as usize) {
            lemma_fundamental_div_mod_converse(all as int, p, 1, low as int);
        } else {
            lemma_basic_div(low as int, p);
        }
    } else {
        lemma_bitmask_digit(s, origin, top, k);
        if s.contains((origin + top) as usize) {
            let e = pow2((top - k - 1) as nat) as int;
            assert(pow2(top) == p * (2 * e)) by {
                lemma_pow2_adds(k, (top - k) as nat);
                lemma_pow2_unfold((top - k) as nat);
            }
            assert((2 * e) * p == p * (2 * e)) by (nonlinear_arith);
            lemma_hoist_over_denominator(low as int, 2 * e, p as nat);
            lemma_mod_multiples_vanish(e, low as int / p, 2);
        }
    }
}

/// Where digit `k` of `a` is 0, setting it adds `2^k`.
pub(crate) proof fn lemma_or_adds_clear_digit(a: u32, k: u32)
    by (bit_vector)
    requires
        k < 32,
        (a >> k) % 2 == 0,
    ensures
        a | (1u32 << k) == a + (1u32 << k),
{
}

/// Reading a set from origin 1 gives the numeral of the lowered set read
/// from origin 0: identifier `i` and position `i - 1` share a digit.
pub proof fn lemma_bitmask_shift(s: Set<usize>, width: nat)
    requires
        width <= usize::MAX,
    ensures
        bitmask(s, 1, width) == bitmask(lowered(s), 0, width),
    decreases width,
{
    if width > 0 {
        lemma_bitmask_shift(s, (width - 1) as nat);
    }
}

} // verus!
