//! A doubly-ended list with exact sequence semantics. The elements live in a
//! single vector addressed by index, rather than in separately allocated
//! nodes tied together by pointers.

use vstd::prelude::*;
use vstd::slice::slice_index_get;

verus! {

/// A list of values supporting pushes and pops at both ends.
pub struct LinkedList<T> {
    items: Vec<T>,
}

impl<T> View for LinkedList<T> {
    type V = Seq<T>;

    closed spec fn view(&self) -> Seq<T> {
        self.items@
    }
}

impl<T> LinkedList<T> {
    pub fn new() -> (r: Self)
        ensures
            r@ == Seq::<T>::empty(),
    {
        LinkedList { items: Vec::new() }
    }

    /// Appends at the back.
    pub fn push_back(&mut self, t: T)
        ensures
            final(self)@ == old(self)@.push(t),
    {
        self.items.push(t);
    }

    /// Prepends at the front.
    pub fn push_front(&mut self, t: T)
        ensures
            final(self)@ == seq![t] + old(self)@,
    {
        self.items.insert(0, t);
        proof {
            assert(self@ =~= seq![t] + old(self)@);
        }
    }

    /// Removes and returns the front element, if any.
    pub fn pop_front(&mut self) -> (r: Option<T>)
        ensures
            match r {
                None => old(self)@.len() == 0 && final(self)@ == old(self)@,
                Some(t) => old(self)@.len() > 0 && t == old(self)@[0] && final(self)@ == old(
                    self,
                )@.drop_first(),
            },
    {
        if self.items.len() == 0 {
            None
        } else {
            let t = self.items.remove(0);
            proof {
                assert(self@ =~= old(self)@.drop_first());
            }
            Some(t)
        }
    }

    /// Removes and returns the back element, if any.
    pub fn pop_back(&mut self) -> (r: Option<T>)
        ensures
            match r {
                None => old(self)@.len() == 0 && final(self)@ == old(self)@,
                Some(t) => old(self)@.len() > 0 && t == old(self)@.last() && final(self)@ == old(
                    self,
                )@.drop_last(),
            },
    {
        self.items.pop()
    }

    /// A cursor over the elements, front to back.
    pub fn iter(&self) -> (r: Iter<'_, T>)
        ensures
            r.list == self,
            r.idx == 0,
            r.wf(),
    {
        Iter { list: self, idx: 0 }
    }
}

/// Walks a list from the front to the back, handing out borrows.
pub struct Iter<'a, T> {
    pub list: &'a LinkedList<T>,
    /// The index of the next element to hand out.
    pub idx: usize,
}

impl<'a, T> Iter<'a, T> {
    /// The cursor stays inside the list.
    pub open spec fn wf(self) -> bool {
        self.idx <= self.list@.len()
    }

    /// The next element, or `None` past the back.
    pub fn next(&mut self) -> (r: Option<&'a T>)
        requires
            old(self).wf(),
        ensures
            final(self).wf(),
            final(self).list == old(self).list,
            match r {
                None => old(self).idx == old(self).list@.len() && final(self).idx == old(self).idx,
                Some(t) => old(self).idx < old(self).list@.len() && final(self).idx == old(
                    self,
                ).idx + 1 && *t == old(self).list@[old(self).idx as int],
            },
    {
        if self.idx == self.list.items.len() {
            None
        } else {
            let idx = self.idx;
            self.idx = self.idx + 1;
            Some(slice_index_get(self.list.items.as_slice(), idx))
        }
    }
}

} // verus!
