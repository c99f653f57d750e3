//! A vector that is walked round and round.

use crate::cycle::{next_index, prev_index, step_backward, step_forward};
use crate::error::Error;
use vstd::prelude::*;

verus! {

/// The vector that a [`LoopVecIter`] walks.
pub type LoopVec<T> = Vec<T>;

/// A non-empty vector and the position of the element that is selected in
/// it. From the last element the walk goes on to the first, and back.
#[derive(Debug)]
pub struct LoopVecIter<T> {
    vec: LoopVec<T>,
    index: usize,
}

impl<T> LoopVecIter<T> {
    #[verifier::type_invariant]
    spec fn index_in_range(&self) -> bool {
        self.index < self.vec.len()
    }

    /// What holds of every walk: an element is selected, so that there is at
    /// least one.
    pub open spec fn wf(&self) -> bool {
        0 <= self.position() < self.items().len()
    }

    /// The elements, in order.
    pub closed spec fn items(&self) -> Seq<T> {
        self.vec@
    }

    /// The position of the selected element.
    pub closed spec fn position(&self) -> int {
        self.index as int
    }

    /// A walk over `vec` that starts at its first element. A vector without
    /// elements cannot be walked.
    pub fn from(vec: LoopVec<T>) -> (r: Result<Self, Error>)
        ensures
            vec.len() == 0 ==> r == Err::<Self, Error>(Error::EmptyList),
            vec.len() > 0 ==> r.is_ok() && r.unwrap().wf() && r.unwrap().items() == vec@
                && r.unwrap().position() == 0,
    {
        if vec.len() == 0 {
            Err(Error::EmptyList)
        } else {
            Ok(LoopVecIter { vec, index: 0 })
        }
    }

    /// The position of the selected element, which is always one of the
    /// vector.
    pub fn index(&self) -> (i: usize)
        ensures
            self.wf(),
            i == self.position(),
    {
        proof {
            use_type_invariant(self);
        }
        self.index
    }

    /// The selected element.
    pub fn selected(&self) -> (r: &T)
        ensures
            self.wf(),
            *r == self.items()[self.position()],
    {
        proof {
            use_type_invariant(self);
        }
        &self.vec[self.index]
    }

    /// The selected element, to be changed in place. Nothing else changes.
    pub fn selected_mut(&mut self) -> (r: &mut T)
        ensures
            old(self).wf(),
            *r == old(self).items()[old(self).position()],
            final(self).position() == old(self).position(),
            final(self).items() == old(self).items().update(old(self).position(), *final(r)),
    {
        proof {
            use_type_invariant(&*self);
        }
        &mut self.vec[self.index]
    }

    /// Selects the element before the selected one, or the last one if the
    /// first was selected, and returns it.
    pub fn prev(&mut self) -> (r: &T)
        ensures
            final(self).items() == old(self).items(),
            final(self).position() == prev_index(
                old(self).position(),
                old(self).items().len() as int,
            ),
            old(self).wf(),
            final(self).wf(),
            *r == final(self).items()[final(self).position()],
    {
        proof {
            use_type_invariant(&*self);
        }
        self.index = step_backward(self.index, self.vec.len());
        &self.vec[self.index]
    }

    /// Selects the element after the selected one, or the first one if the
    /// last was selected, and returns it.
    pub fn next(&mut self) -> (r: &T)
        ensures
            final(self).items() == old(self).items(),
            final(self).position() == next_index(
                old(self).position(),
                old(self).items().len() as int,
            ),
            old(self).wf(),
            final(self).wf(),
            *r == final(self).items()[final(self).position()],
    {
        proof {
            use_type_invariant(&*self);
        }
        self.index = step_forward(self.index, self.vec.len());
        &self.vec[self.index]
    }
}

/// What can be turned into a walk round its elements.
pub trait IntoLoopVecIter<T>: Sized {
    /// The elements, in the order of the walk.
    spec fn elements(&self) -> Seq<T>;

    /// A walk that starts at the first element; none where there is no
    /// element.
    fn into_loop_vec_iter(self) -> (r: Result<LoopVecIter<T>, Error>)
        ensures
            self.elements().len() == 0 ==> r == Err::<LoopVecIter<T>, Error>(Error::EmptyList),
            self.elements().len() > 0 ==> r.is_ok() && r.unwrap().wf() && r.unwrap().items()
                == self.elements() && r.unwrap().position() == 0,
    ;
}

impl<T> IntoLoopVecIter<T> for LoopVec<T> {
    open spec fn elements(&self) -> Seq<T> {
        self@
    }

    fn into_loop_vec_iter(self) -> (r: Result<LoopVecIter<T>, Error>) {
        LoopVecIter::from(self)
    }
}

} // verus!
