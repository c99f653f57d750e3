//! A list of labels with one moving cursor.

use crate::cycle::{
    advance, lemma_advance, lemma_full_turn, lemma_steps_cancel, next_index, prev_index,
    step_backward, step_forward,
};
use vstd::prelude::*;
use vstd::std_specs::iter::IteratorSpec;

verus! {

/// An ordered, non-empty list of labels and the position of a cursor in it.
///
/// The labels never change after construction. The cursor always names one
/// of them.
#[derive(Debug, PartialEq, Eq, Hash)]
pub struct SelectList {
    list: Vec<String>,
    cursor: usize,
}

impl SelectList {
    #[verifier::type_invariant]
    spec fn cursor_in_range(&self) -> bool {
        self.wf()
    }

    /// The labels, in display order.
    pub closed spec fn items(&self) -> Seq<String> {
        self.list@
    }

    /// The position of the cursor.
    pub closed spec fn position(&self) -> int {
        self.cursor as int
    }

    /// What holds of every list: the cursor is on one of the labels, so that
    /// there is at least one.
    pub open spec fn wf(&self) -> bool {
        0 <= self.position() < self.items().len()
    }

    /// Whether `post` is this list after one step of the cursor, forward or
    /// backward: the same labels, the cursor one position on.
    pub open spec fn stepped(self, post: Self, forward: bool) -> bool {
        &&& post.items() == self.items()
        &&& post.position() == if forward {
            next_index(self.position(), self.items().len() as int)
        } else {
            prev_index(self.position(), self.items().len() as int)
        }
    }

    /// A list of the given labels with the cursor on the first one.
    pub fn new(list: Vec<String>) -> (r: Self)
        requires
            list.len() > 0,
        ensures
            r.wf(),
            r.items() == list@,
            r.position() == 0,
    {
        SelectList { list, cursor: 0 }
    }

    /// Moves the cursor to the next label; from the last label it goes to the
    /// first.
    pub fn next(&mut self)
        ensures
            old(self).wf(),
            final(self).wf(),
            old(self).stepped(*final(self), true),
    {
        proof {
            use_type_invariant(&*self);
        }
        self.cursor = step_forward(self.cursor, self.list.len());
    }

    /// Moves the cursor to the previous label; from the first label it goes
    /// to the last.
    pub fn prev(&mut self)
        ensures
            old(self).wf(),
            final(self).wf(),
            old(self).stepped(*final(self), false),
    {
        proof {
            use_type_invariant(&*self);
        }
        self.cursor = step_backward(self.cursor, self.list.len());
    }

    /// The position of the cursor, which is always that of a label.
    pub fn cursor(&self) -> (c: usize)
        ensures
            self.wf(),
            c == self.position(),
    {
        proof {
            use_type_invariant(self);
        }
        self.cursor
    }

    /// The number of labels, which is never zero.
    pub fn len(&self) -> (n: usize)
        ensures
            self.wf(),
            n == self.items().len(),
    {
        proof {
            use_type_invariant(self);
        }
        self.list.len()
    }

    /// The labels in display order.
    pub fn iter(&self) -> (it: std::slice::Iter<'_, String>)
        ensures
            it.remaining() == self.items().as_ref(),
    {
        self.list.iter()
    }
}

impl Clone for SelectList {
    /// A list with equal labels and the cursor at the same position.
    fn clone(&self) -> (r: Self)
        ensures
            r.wf(),
            r.items() == self.items(),
            r.position() == self.position(),
    {
        proof {
            use_type_invariant(self);
        }
        SelectList { list: self.list.clone(), cursor: self.cursor }
    }
}

/// A step back undoes a step forward: after both the list is as it was.
pub proof fn lemma_prev_undoes_next(a: SelectList, b: SelectList, c: SelectList)
    requires
        a.wf(),
        a.stepped(b, true),
        b.stepped(c, false),
    ensures
        c.items() == a.items(),
        c.position() == a.position(),
{
    lemma_steps_cancel(a.position(), a.items().len() as int);
}

/// A step forward undoes a step back: after both the list is as it was.
pub proof fn lemma_next_undoes_prev(a: SelectList, b: SelectList, c: SelectList)
    requires
        a.wf(),
        a.stepped(b, false),
        b.stepped(c, true),
    ensures
        c.items() == a.items(),
        c.position() == a.position(),
{
    lemma_steps_cancel(a.position(), a.items().len() as int);
}

/// Whether each list of `trace` but the first is the one before it after one
/// step forward.
pub open spec fn steps_forward(trace: Seq<SelectList>) -> bool {
    forall|k: int| 0 <= k < trace.len() - 1 ==> (#[trigger] trace[k]).stepped(trace[k + 1], true)
}

/// After `k` steps forward the cursor stands `k` positions on, counted round
/// the list.
pub proof fn lemma_steps_forward(trace: Seq<SelectList>, k: int)
    requires
        trace.len() > 0,
        trace[0].wf(),
        steps_forward(trace),
        0 <= k < trace.len(),
    ensures
        trace[k].items() == trace[0].items(),
        trace[k].position() == advance(
            trace[0].position(),
            trace[0].items().len() as int,
            k as nat,
        ),
    decreases k,
{
    if k > 0 {
        lemma_steps_forward(trace, k - 1);
        assert(trace[k - 1].stepped(trace[k - 1 + 1], true));
        lemma_advance(trace[0].position(), trace[0].items().len() as int, (k - 1) as nat);
    }
}

/// As many steps forward as the list has labels bring the cursor back to
/// where it started.
pub proof fn lemma_cursor_full_turn(trace: Seq<SelectList>)
    requires
        trace.len() > 0,
        trace[0].wf(),
        trace.len() == trace[0].items().len() + 1,
        steps_forward(trace),
    ensures
        trace.last().items() == trace[0].items(),
        trace.last().position() == trace[0].position(),
{
    lemma_steps_forward(trace, trace.len() - 1);
    lemma_full_turn(trace[0].position(), trace[0].items().len() as int);
}

} // verus!
