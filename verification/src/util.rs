//! The number that the remote catalogue takes for a set of identifiers.

use crate::bits::{
    bitmask, lemma_bitmask_bound, lemma_bitmask_empty, lemma_bitmask_insert,
    lemma_prefix_set_ends, lemma_prefix_set_step, prefix_set,
};
use std::collections::BTreeSet;
use vstd::arithmetic::power2::{lemma2_to64, pow2};
use vstd::bits::{lemma_usize_pow2_no_overflow, lemma_usize_shl_is_mul};
use vstd::prelude::*;
use vstd::std_specs::btree::spec_btree_keys_iter;
use vstd::std_specs::iter::IteratorSpec;

verus! {

/// A machine word holds every numeral that has one digit for each of its
/// bits.
proof fn lemma_word_holds_numeral()
    ensures
        pow2(usize::BITS as nat) == usize::MAX + 1,
{
    lemma2_to64();
}

/// The set `s` of identifiers as a binary numeral. Identifiers count from 1:
/// identifier `i` sets digit `i - 1`, digit 0 being the least significant.
/// The numeral is a machine word, so that identifiers run from 1 to the
/// number of bits in a word.
pub fn calculate_api_number(s: &BTreeSet<usize>) -> (r: usize)
    requires
        forall|x: usize| s@.contains(x) ==> 1 <= x <= usize::BITS,
    ensures
        r == bitmask(s@, 1, usize::BITS as nat),
{
    proof {
        lemma_bitmask_empty(1, usize::BITS as nat);
        lemma_prefix_set_ends(spec_btree_keys_iter(s).remaining());
    }
    let mut acc: usize = 0;
    for x in it: s.iter()
        invariant
            forall|x: usize| s@.contains(x) ==> 1 <= x <= usize::BITS,
            it.seq() == spec_btree_keys_iter(s).remaining(),
            acc == bitmask(prefix_set(it.seq(), it.index()), 1, usize::BITS as nat),
    {
        proof {
            let seen = prefix_set(it.seq(), it.index());
            lemma_prefix_set_ends(it.seq());
            assert(it.seq().unref()[it.index()] == *x);
            assert(s@.contains(*x));
            lemma_prefix_set_step(it.seq(), it.index());
            lemma_bitmask_insert(seen, 1, usize::BITS as nat, *x);
            lemma_bitmask_bound(seen.insert(*x), 1, usize::BITS as nat);
            lemma_word_holds_numeral();
            lemma_usize_pow2_no_overflow((*x - 1) as nat);
            lemma_usize_shl_is_mul(1, (*x - 1) as usize);
        }
        acc = acc + (1usize << (*x - 1));
    }
    acc
}

} // verus!
