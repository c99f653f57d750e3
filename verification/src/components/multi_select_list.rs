//! A list of labels with a cursor and a set of selected positions.

use crate::bits::{
    bitmask, lemma_bitmask_bound, lemma_bitmask_digit, lemma_bitmask_empty, lemma_bitmask_insert,
    lemma_bitmask_widen, lemma_or_adds_clear_digit, lemma_prefix_set_ends, lemma_prefix_set_step,
    prefix_set,
};
use vstd::arithmetic::power2::lemma2_to64;
use crate::cycle::{
    advance, lemma_advance, lemma_full_turn, lemma_steps_cancel, next_index, prev_index,
    step_backward, step_forward,
};
use crate::error::Error;
use crate::style::Color;
use std::collections::BTreeSet;
use vstd::bits::{lemma_u32_pow2_no_overflow, lemma_u32_shl_is_mul, lemma_u32_shr_is_div};
use vstd::prelude::*;
use vstd::seq_lib::{to_multiset_build, to_multiset_len};
use vstd::std_specs::btree::spec_btree_keys_iter;
use vstd::std_specs::iter::IteratorSpec;

verus! {

/// Which positions a new list starts with selected.
#[derive(Debug, PartialEq, Eq, Hash)]
pub enum DefaultSelection {
    /// None.
    Empty,
    /// Every position of the list.
    Full,
    /// Position 0 alone.
    First,
    /// The positions given, in any order; a repeated one counts once.
    Partial(Vec<usize>),
}

impl DefaultSelection {
    /// The set of positions that this policy selects in a list of `n` items.
    pub open spec fn chosen(self, n: nat) -> Set<usize> {
        match self {
            DefaultSelection::Empty => Set::empty(),
            DefaultSelection::Full => Set::new(|i: usize| i < n),
            DefaultSelection::First => set![0usize],
            DefaultSelection::Partial(v) => v@.to_set(),
        }
    }

    /// Whether every position that this policy selects exists in a list of
    /// `n` items.
    pub open spec fn fits(self, n: nat) -> bool {
        match self {
            DefaultSelection::Partial(v) => forall|k: int| 0 <= k < v.len() ==> v[k] < n,
            _ => n > 0,
        }
    }

    /// Whether place `k` of the positions given is the first to name a
    /// position that a list of `n` items lacks.
    pub open spec fn misfit_at(self, n: nat, k: int) -> bool {
        &&& self matches DefaultSelection::Partial(v)
        &&& 0 <= k < v.len()
        &&& v[k] >= n
        &&& forall|j: int| 0 <= j < k ==> v[j] < n
    }
}

/// A policy that fits a list selects positions of that list only.
pub proof fn lemma_chosen_in_range(default: DefaultSelection, n: nat)
    requires
        default.fits(n),
    ensures
        forall|i: usize| default.chosen(n).contains(i) ==> i < n,
{
    assert forall|i: usize| default.chosen(n).contains(i) implies i < n by {
        if let DefaultSelection::Partial(v) = default {
            let k = choose|k: int| 0 <= k < v@.len() && v@[k] == i;
            assert(v[k] < n);
        }
    }
}

/// The set `s` with the membership of `i` flipped.
pub open spec fn toggled(s: Set<usize>, i: usize) -> Set<usize> {
    if s.contains(i) {
        s.remove(i)
    } else {
        s.insert(i)
    }
}

/// Flipping the same position twice restores the set.
pub proof fn lemma_toggle_twice(s: Set<usize>, i: usize)
    ensures
        toggled(toggled(s, i), i) == s,
{
    assert(toggled(toggled(s, i), i) =~= s);
}

/// Two flips give the same set in either order.
pub proof fn lemma_toggle_commutes(s: Set<usize>, i: usize, j: usize)
    ensures
        toggled(toggled(s, i), j) == toggled(toggled(s, j), i),
{
    assert(toggled(toggled(s, i), j) =~= toggled(toggled(s, j), i));
}

/// The set `s` after the positions of `ops` were flipped one after another.
pub open spec fn toggled_all(s: Set<usize>, ops: Seq<usize>) -> Set<usize>
    decreases ops.len(),
{
    if ops.len() == 0 {
        s
    } else {
        toggled(toggled_all(s, ops.drop_last()), ops.last())
    }
}

/// After a run of flips a position is selected exactly when it was selected
/// before and flipped an even number of times, or was not selected and
/// flipped an odd number of times.
pub proof fn lemma_toggled_all_parity(s: Set<usize>, ops: Seq<usize>, x: usize)
    ensures
        toggled_all(s, ops).contains(x) <==> (s.contains(x) != (ops.to_multiset().count(x) % 2
            == 1)),
    decreases ops.len(),
{
    broadcast use vstd::multiset::group_multiset_axioms;

    if ops.len() == 0 {
        to_multiset_len(ops);
        assert(ops.to_multiset().count(x) <= ops.to_multiset().len()) by {
            if ops.to_multiset().count(x) > 0 {
                assert(ops.to_multiset().contains(x));
                assert(ops.to_multiset().len() > 0);
            }
        }
    } else {
        let init = ops.drop_last();
        lemma_toggled_all_parity(s, init, x);
        assert(init.push(ops.last()) =~= ops);
        to_multiset_build(init, ops.last());
    }
}

/// The set that a run of flips leaves depends on how often each position is
/// flipped, not on the order of the flips.
pub proof fn lemma_toggles_reorder(s: Set<usize>, ops1: Seq<usize>, ops2: Seq<usize>)
    requires
        ops1.to_multiset() == ops2.to_multiset(),
    ensures
        toggled_all(s, ops1) == toggled_all(s, ops2),
{
    assert forall|x: usize| toggled_all(s, ops1).contains(x) <==> toggled_all(s, ops2).contains(
        x,
    ) by {
        lemma_toggled_all_parity(s, ops1, x);
        lemma_toggled_all_parity(s, ops2, x);
    }
    assert(toggled_all(s, ops1) =~= toggled_all(s, ops2));
}

/// The binary numeral of a selection does not depend on the order in which
/// the flips that led to it were made.
pub proof fn lemma_bit_sum_order_independent(
    s: Set<usize>,
    ops1: Seq<usize>,
    ops2: Seq<usize>,
    width: nat,
)
    requires
        ops1.to_multiset() == ops2.to_multiset(),
    ensures
        bitmask(toggled_all(s, ops1), 0, width) == bitmask(toggled_all(s, ops2), 0, width),
{
    lemma_toggles_reorder(s, ops1, ops2);
}

/// An ordered, non-empty list of labels, the position of a cursor in it, and
/// the set of positions that are selected.
///
/// The labels never change after construction. The cursor always names one
/// of them, and so does every selected position.
#[derive(Debug, PartialEq, Eq, Hash)]
pub struct MultiSelectList {
    list: Vec<String>,
    cursor: usize,
    selected: BTreeSet<usize>,
    selected_color: Color,
}

impl MultiSelectList {
    #[verifier::type_invariant]
    spec fn in_range(&self) -> bool {
        &&& self.cursor < self.list.len()
        &&& forall|i: usize| self.selected@.contains(i) ==> i < self.list.len()
    }

    /// The labels, in display order.
    pub closed spec fn items(&self) -> Seq<String> {
        self.list@
    }

    /// The position of the cursor.
    pub closed spec fn position(&self) -> int {
        self.cursor as int
    }

    /// The selected positions.
    pub closed spec fn selected_set(&self) -> Set<usize> {
        self.selected@
    }

    /// The colour in which a selected label is shown.
    pub closed spec fn highlight(&self) -> Color {
        self.selected_color
    }

    /// What holds of every list: the cursor is on one of the labels, so that
    /// there is at least one, and every selected position is that of a label.
    pub open spec fn wf(&self) -> bool {
        &&& 0 <= self.position() < self.items().len()
        &&& forall|i: usize| self.selected_set().contains(i) ==> i < self.items().len()
    }

    /// Whether `post` is this list after one step of the cursor, forward or
    /// backward: the same labels, selection and colour, the cursor one
    /// position on.
    pub open spec fn stepped(self, post: Self, forward: bool) -> bool {
        &&& post.items() == self.items()
        &&& post.selected_set() == self.selected_set()
        &&& post.highlight() == self.highlight()
        &&& post.position() == if forward {
            next_index(self.position(), self.items().len() as int)
        } else {
            prev_index(self.position(), self.items().len() as int)
        }
    }

    /// Whether `post` is this list after the selection of position `index`
    /// was flipped: the same labels, cursor and colour, and the selected set
    /// with the membership of `index` flipped.
    pub open spec fn flipped(self, post: Self, index: usize) -> bool {
        &&& post.items() == self.items()
        &&& post.position() == self.position()
        &&& post.highlight() == self.highlight()
        &&& post.selected_set() == toggled(self.selected_set(), index)
    }

    /// Whether `post` shows the same as this list: labels, cursor, selection
    /// and colour.
    pub open spec fn same_as(self, post: Self) -> bool {
        &&& post.items() == self.items()
        &&& post.position() == self.position()
        &&& post.highlight() == self.highlight()
        &&& post.selected_set() == self.selected_set()
    }

    /// A list of the given labels with the cursor on the first one, the
    /// positions selected that `default` names, and green as the colour of
    /// selected labels.
    pub fn new(list: Vec<String>, default: DefaultSelection) -> (r: Self)
        requires
            list.len() > 0,
            default.fits(list.len() as nat),
        ensures
            r.wf(),
            r.items() == list@,
            r.position() == 0,
            r.selected_set() == default.chosen(list.len() as nat),
            r.highlight() == Color::Green,
    {
        let n = list.len();
        let mut selected: BTreeSet<usize> = BTreeSet::new();
        match default {
            DefaultSelection::Empty => {},
            DefaultSelection::Full => {
                let mut i: usize = 0;
                while i < n
                    invariant
                        i <= n,
                        selected@ =~= Set::new(|j: usize| j < i),
                    decreases n - i,
                {
                    selected.insert(i);
                    i += 1;
                }
            },
            DefaultSelection::First => {
                selected.insert(0);
            },
            DefaultSelection::Partial(v) => {
                let mut k: usize = 0;
                while k < v.len()
                    invariant
                        k <= v.len(),
                        selected@ =~= v@.take(k as int).to_set(),
                    decreases v.len() - k,
                {
                    selected.insert(v[k]);
                    assert(v@.take(k + 1) =~= v@.take(k as int).push(v[k as int]));
                    proof {
                        v@.take(k as int).lemma_push_to_set_commute(v[k as int]);
                    }
                    k += 1;
                }
                assert(v@.take(v.len() as int) =~= v@);
            },
        }
        MultiSelectList { list, cursor: 0, selected, selected_color: Color::Green }
    }

    /// The list that [`MultiSelectList::new`] makes, or the reason why there
    /// is none: no label at all, or a position among those given that the
    /// list lacks, of which the first is named.
    pub fn try_new(list: Vec<String>, default: DefaultSelection) -> (r: Result<Self, Error>)
        ensures
            list.len() == 0 ==> r == Err::<Self, Error>(Error::EmptyList),
            list.len() > 0 && !default.fits(list.len() as nat) ==> exists|k: int|
                #![trigger default.misfit_at(list.len() as nat, k)]
                default.misfit_at(list.len() as nat, k) && r == Err::<Self, Error>(
                    Error::IndexOutOfRange { index: default->Partial_0[k], len: list.len() },
                ),
            list.len() > 0 && default.fits(list.len() as nat) ==> r.is_ok() && {
                let made = r.unwrap();
                &&& made.wf()
                &&& made.items() == list@
                &&& made.position() == 0
                &&& made.selected_set() == default.chosen(list.len() as nat)
                &&& made.highlight() == Color::Green
            },
    {
        let n = list.len();
        if n == 0 {
            return Err(Error::EmptyList);
        }
        match &default {
            DefaultSelection::Partial(v) => {
                let mut k: usize = 0;
                while k < v.len()
                    invariant
                        k <= v.len(),
                        0 < n == list.len(),
                        default == DefaultSelection::Partial(*v),
                        forall|j: int| 0 <= j < k ==> v[j] < n,
                    decreases v.len() - k,
                {
                    if v[k] >= n {
                        assert(default.misfit_at(n as nat, k as int));
                        return Err(Error::IndexOutOfRange { index: v[k], len: n });
                    }
                    k += 1;
                }
            },
            _ => {},
        }
        Ok(Self::new(list, default))
    }

    /// Flips the selection of position `index` and says whether it is
    /// selected afterwards. A position that the list does not have is
    /// refused, and nothing changes.
    pub fn select(&mut self, index: usize) -> (r: Result<bool, Error>)
        ensures
            old(self).wf(),
            final(self).wf(),
            index < old(self).items().len() ==> r == Ok::<bool, Error>(
                !old(self).selected_set().contains(index),
            ) && old(self).flipped(*final(self), index),
            index >= old(self).items().len() ==> r == Err::<bool, Error>(
                Error::IndexOutOfRange { index, len: old(self).items().len() as usize },
            ) && old(self).same_as(*final(self)),
    {
        proof {
            use_type_invariant(&*self);
        }
        if index >= self.list.len() {
            return Err(Error::IndexOutOfRange { index, len: self.list.len() });
        }
        // The set is worked on outside the list and put back, so that the
        // list is whole at every step.
        let mut chosen: BTreeSet<usize> = BTreeSet::new();
        core::mem::swap(&mut self.selected, &mut chosen);
        let now_selected = chosen.insert(index);
        if !now_selected {
            chosen.remove(&index);
        }
        self.selected = chosen;
        assert(self.selected@ =~= toggled(old(self).selected@, index));
        Ok(now_selected)
    }

    /// Flips the selection of the position under the cursor and says whether
    /// it is selected afterwards.
    pub fn select_cursor(&mut self) -> (now_selected: bool)
        ensures
            old(self).wf(),
            final(self).wf(),
            old(self).flipped(*final(self), old(self).position() as usize),
            now_selected == !old(self).selected_set().contains(old(self).position() as usize),
    {
        proof {
            use_type_invariant(&*self);
        }
        let at = self.cursor;
        match self.select(at) {
            Ok(now_selected) => now_selected,
            Err(_) => false,
        }
    }

    /// The same list with `color` as the colour of selected labels.
    pub fn set_selected_color(self, color: Color) -> (r: Self)
        ensures
            r.wf(),
            r.items() == self.items(),
            r.position() == self.position(),
            r.selected_set() == self.selected_set(),
            r.highlight() == color,
    {
        proof {
            use_type_invariant(&self);
        }
        MultiSelectList {
            list: self.list,
            cursor: self.cursor,
            selected: self.selected,
            selected_color: color,
        }
    }

    /// Moves the cursor to the next label; from the last label it goes to the
    /// first.
    pub fn next(&mut self)
        ensures
            old(self).wf(),
            final(self).wf(),
            old(self).stepped(*final(self), true),
    {
        proof {
            use_type_invariant(&*self);
        }
        self.cursor = step_forward(self.cursor, self.list.len());
    }

    /// Moves the cursor to the previous label; from the first label it goes
    /// to the last.
    pub fn prev(&mut self)
        ensures
            old(self).wf(),
            final(self).wf(),
            old(self).stepped(*final(self), false),
    {
        proof {
            use_type_invariant(&*self);
        }
        self.cursor = step_backward(self.cursor, self.list.len());
    }

    /// The position of the cursor, which is always that of a label.
    pub fn cursor(&self) -> (c: usize)
        ensures
            self.wf(),
            c == self.position(),
    {
        proof {
            use_type_invariant(self);
        }
        self.cursor
    }

    /// The number of labels, which is never zero.
    pub fn len(&self) -> (n: usize)
        ensures
            self.wf(),
            n == self.items().len(),
    {
        proof {
            use_type_invariant(self);
        }
        self.list.len()
    }

    /// The labels in display order.
    pub fn iter(&self) -> (it: std::slice::Iter<'_, String>)
        ensures
            it.remaining() == self.items().as_ref(),
    {
        self.list.iter()
    }

    /// Whether position `index` is selected. Only positions of the list ever
    /// are.
    pub fn is_selected(&self, index: usize) -> (r: bool)
        ensures
            self.wf(),
            r == self.selected_set().contains(index),
    {
        proof {
            use_type_invariant(self);
        }
        self.selected.contains(&index)
    }

    /// The selected positions. Each of them is a position of the list.
    pub fn selected(&self) -> (r: &BTreeSet<usize>)
        ensures
            self.wf(),
            r@ == self.selected_set(),
    {
        proof {
            use_type_invariant(self);
        }
        &self.selected
    }

    /// The selection as a binary numeral of 32 digits: digit `i` is 1 exactly
    /// when position `i` is selected, digit 0 being the least significant.
    /// Every selected position has to have a digit, so that none may be 32 or
    /// more; the list itself may be longer.
    pub fn bit_sum(&self) -> (r: u32)
        requires
            forall|i: usize| self.selected_set().contains(i) ==> i < u32::BITS,
        ensures
            r == bitmask(self.selected_set(), 0, u32::BITS as nat),
            self.items().len() <= u32::BITS ==> r == bitmask(
                self.selected_set(),
                0,
                self.items().len(),
            ),
    {
        proof {
            use_type_invariant(self);
            lemma_bitmask_empty(0, 32);
            lemma_prefix_set_ends(spec_btree_keys_iter(&self.selected).remaining());
            if self.list.len() <= 32 {
                lemma_bitmask_widen(self.selected@, 0, self.list.len() as nat, 32);
            }
            assert forall|i: usize| self.selected@.contains(i) implies i < 32 by {
                assert(self.selected_set().contains(i));
            }
        }
        let mut acc: u32 = 0;
        for x in it: self.selected.iter()
            invariant
                forall|i: usize| self.selected@.contains(i) ==> i < 32,
                it.seq() == spec_btree_keys_iter(&self.selected).remaining(),
                acc == bitmask(prefix_set(it.seq(), it.index()), 0, 32),
        {
            proof {
                let seen = prefix_set(it.seq(), it.index());
                let at = *x as u32;
                lemma_prefix_set_ends(it.seq());
                assert(it.seq().unref()[it.index()] == *x);
                assert(self.selected@.contains(*x));
                lemma_prefix_set_step(it.seq(), it.index());
                lemma_bitmask_insert(seen, 0, 32, *x);
                lemma_bitmask_bound(seen.insert(*x), 0, 32);
                lemma_bitmask_digit(seen, 0, 32, *x as nat);
                lemma2_to64();
                lemma_u32_pow2_no_overflow(*x as nat);
                lemma_u32_shr_is_div(acc, at);
                lemma_u32_shl_is_mul(1, at);
                lemma_or_adds_clear_digit(acc, at);
            }
            acc = acc | (1u32 << *x);
        }
        acc
    }

    /// The colour in which the label at `index` is shown: the colour of
    /// selected labels if the position is selected, white if it is not.
    pub fn color_of(&self, index: usize) -> (c: Color)
        ensures
            c == if self.selected_set().contains(index) {
                self.highlight()
            } else {
                Color::White
            },
    {
        if self.selected.contains(&index) {
            self.selected_color
        } else {
            Color::White
        }
    }
}

impl Clone for MultiSelectList {
    /// A list that shows the same.
    fn clone(&self) -> (r: Self)
        ensures
            r.wf(),
            self.same_as(r),
    {
        proof {
            use_type_invariant(self);
        }
        MultiSelectList {
            list: self.list.clone(),
            cursor: self.cursor,
            selected: self.selected.clone(),
            selected_color: self.selected_color,
        }
    }
}

/// A step back undoes a step forward: after both the list is as it was.
pub proof fn lemma_prev_undoes_next(a: MultiSelectList, b: MultiSelectList, c: MultiSelectList)
    requires
        a.wf(),
        a.stepped(b, true),
        b.stepped(c, false),
    ensures
        a.same_as(c),
{
    lemma_steps_cancel(a.position(), a.items().len() as int);
}

/// A step forward undoes a step back: after both the list is as it was.
pub proof fn lemma_next_undoes_prev(a: MultiSelectList, b: MultiSelectList, c: MultiSelectList)
    requires
        a.wf(),
        a.stepped(b, false),
        b.stepped(c, true),
    ensures
        a.same_as(c),
{
    lemma_steps_cancel(a.position(), a.items().len() as int);
}

/// Whether each list of `trace` but the first is the one before it after one
/// step forward.
pub open spec fn steps_forward(trace: Seq<MultiSelectList>) -> bool {
    forall|k: int| 0 <= k < trace.len() - 1 ==> (#[trigger] trace[k]).stepped(trace[k + 1], true)
}

/// After `k` steps forward the cursor stands `k` positions on, counted round
/// the list, and nothing else has changed.
pub proof fn lemma_steps_forward(trace: Seq<MultiSelectList>, k: int)
    requires
        trace.len() > 0,
        trace[0].wf(),
        steps_forward(trace),
        0 <= k < trace.len(),
    ensures
        trace[k].items() == trace[0].items(),
        trace[k].selected_set() == trace[0].selected_set(),
        trace[k].highlight() == trace[0].highlight(),
        trace[k].position() == advance(
            trace[0].position(),
            trace[0].items().len() as int,
            k as nat,
        ),
    decreases k,
{
    if k > 0 {
        lemma_steps_forward(trace, k - 1);
        assert(trace[k - 1].stepped(trace[k - 1 + 1], true));
        lemma_advance(trace[0].position(), trace[0].items().len() as int, (k - 1) as nat);
    }
}

/// As many steps forward as the list has labels bring the cursor back to
/// where it started, and leave the list as it was.
pub proof fn lemma_cursor_full_turn(trace: Seq<MultiSelectList>)
    requires
        trace.len() > 0,
        trace[0].wf(),
        trace.len() == trace[0].items().len() + 1,
        steps_forward(trace),
    ensures
        trace[0].same_as(trace.last()),
{
    lemma_steps_forward(trace, trace.len() - 1);
    lemma_full_turn(trace[0].position(), trace[0].items().len() as int);
}

/// Flipping the selection of the same position twice leaves the list as it
/// was.
pub proof fn lemma_select_twice(
    a: MultiSelectList,
    b: MultiSelectList,
    c: MultiSelectList,
    index: usize,
)
    requires
        a.flipped(b, index),
        b.flipped(c, index),
    ensures
        a.same_as(c),
{
    lemma_toggle_twice(a.selected_set(), index);
}

} // verus!
