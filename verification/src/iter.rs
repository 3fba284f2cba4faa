//! Consuming iteration: the iterator takes sole ownership of the array's
//! allocation, yields the owned elements in index order, and releases the
//! allocation exactly once — when the last element has been yielded, when an
//! exhausted iterator is polled, or when a part-drained iterator is
//! abandoned (which also hands back the elements it never yielded).

use vstd::prelude::*;

use crate::allocator::{free_step, Allocator, Handle};
use crate::array::{all_live, live_values, HeapArray, Slot};

verus! {

/// Owns what was the array's allocation and the elements not yet yielded
/// (kept in reverse, so that yielding pops from the end).
pub struct IntoIter<T> {
    pub handle: Handle,
    pub rem: Vec<T>,
    pub total: usize,
    pub done: bool,
}

impl<T> IntoIter<T> {
    /// Elements not yet yielded, in yield order.
    pub open spec fn remaining(self) -> Seq<T> {
        self.rem@.reverse()
    }

    /// Once `done` (allocation released) nothing remains; before that the
    /// handle covers the consumed array's bytes.
    pub open spec fn wf(self, al: Allocator) -> bool {
        &&& self.rem@.len() <= self.total
        &&& self.total * vstd::layout::size_of::<T>() <= usize::MAX
        &&& if self.done {
            self.rem@.len() == 0
        } else if self.handle.is_null() {
            self.total * vstd::layout::size_of::<T>() == 0
        } else {
            al.live(self.handle) && al.block_size(self.handle) == self.total
                * vstd::layout::size_of::<T>()
        }
    }

    /// The element count of the array this iterator consumed.
    pub fn len(&self) -> (r: usize)
        ensures
            r == self.total,
    {
        self.total
    }

    /// Yield the next element.  Yielding the last element, or polling an
    /// exhausted iterator that still holds the allocation, releases it; any
    /// later poll leaves the allocator untouched.
    pub fn next(&mut self, al: &mut Allocator) -> (r: Option<T>)
        requires
            old(self).wf(*old(al)),
        ensures
            final(self).wf(*final(al)),
            final(self).handle == old(self).handle,
            final(self).total == old(self).total,
            if old(self).remaining().len() == 0 {
                &&& r is None
                &&& final(self).done
                &&& if old(self).done {
                    *final(al) == *old(al)
                } else {
                    free_step(*old(al), *final(al), old(self).handle)
                }
            } else {
                &&& r matches Some(v) && v == old(self).remaining()[0]
                &&& final(self).remaining() == old(self).remaining().skip(1)
                &&& if old(self).remaining().len() == 1 {
                    final(self).done && free_step(*old(al), *final(al), old(self).handle)
                } else {
                    !final(self).done && *final(al) == *old(al)
                }
            },
    {
        match self.rem.pop() {
            None => {
                if !self.done {
                    al.free(self.handle);
                    self.done = true;
                }
                proof {
                    assert(final(self).remaining() =~= Seq::<T>::empty());
                }
                None
            },
            Some(v) => {
                proof {
                    assert(old(self).rem@.drop_last().reverse() =~= old(
                        self,
                    ).rem@.reverse().skip(1));
                }
                if self.rem.len() == 0 {
                    al.free(self.handle);
                    self.done = true;
                }
                Some(v)
            },
        }
    }

    /// Abandon the iterator: the elements never yielded come back (in yield
    /// order) instead of being silently destroyed, and the allocation is
    /// released if the iterator still held it.
    pub fn abandon(self, al: &mut Allocator) -> (r: Vec<T>)
        requires
            self.wf(*old(al)),
        ensures
            r@ == self.remaining(),
            if self.done {
                *final(al) == *old(al)
            } else {
                free_step(*old(al), *final(al), self.handle)
            },
    {
        let IntoIter { handle, rem, total: _, done } = self;
        if !done {
            al.free(handle);
        }
        let ghost grem = rem@;
        let mut rem = rem;
        let mut r: Vec<T> = Vec::new();
        while rem.len() > 0
            invariant
                rem@.len() <= grem.len(),
                rem@ == grem.subrange(0, rem@.len() as int),
                r@.len() == grem.len() - rem@.len(),
                forall|j: int| 0 <= j < r@.len() ==> r@[j] == grem[grem.len() - 1 - j],
            decreases rem@.len(),
        {
            proof {
                assert(grem.subrange(0, rem@.len() as int).drop_last() =~= grem.subrange(
                    0,
                    rem@.len() - 1,
                ));
            }
            let v = match rem.pop() {
                Some(v) => v,
                None => vstd::pervasive::unreached(),
            };
            r.push(v);
        }
        proof {
            assert(r@ =~= grem.reverse());
        }
        r
    }
}

/// Filling an uninitialised array with the type's default values and then
/// draining it yields exactly one default value per slot, in index order.
pub proof fn lemma_fill_default_then_drain<T: Default>(filled: HeapArray<T>, it: IntoIter<T>)
    requires
        forall|i: int|
            0 <= i < filled@.len() ==> ((#[trigger] filled@[i]) matches Slot::Live(v)
                && call_ensures(T::default, (), v)),
        it.remaining() == filled.values(),
    ensures
        it.remaining().len() == filled@.len(),
        forall|i: int|
            0 <= i < it.remaining().len() ==> call_ensures(
                T::default,
                (),
                #[trigger] it.remaining()[i],
            ),
{
    assert(forall|i: int|
        0 <= i < filled@.len() ==> #[trigger] filled.values()[i] == filled@[i]->Live_0);
}

impl<T> HeapArray<T> {
    /// Consume the (fully live) array into an iterator that owns the
    /// allocation; the array can no longer release it.
    pub fn into_iter(self) -> (r: IntoIter<T>)
        requires
            self.spec_all_live(),
        ensures
            r.handle == self.handle,
            r.total == self@.len(),
            r.remaining() == self.values(),
            !r.done,
            r.rem@.len() == self@.len(),
    {
        let HeapArray { handle, slots, drop_check: _ } = self;
        let total = slots.len();
        let ghost gs = slots@;
        let mut slots = slots;
        let mut rem: Vec<T> = Vec::new();
        while slots.len() > 0
            invariant
                all_live(gs),
                gs.len() == total,
                slots@.len() <= total,
                slots@ == gs.subrange(0, slots@.len() as int),
                rem@.len() == total - slots@.len(),
                forall|j: int|
                    0 <= j < rem@.len() ==> rem@[j] == live_values(gs)[gs.len() - 1 - j],
            decreases slots@.len(),
        {
            proof {
                assert(gs.subrange(0, slots@.len() as int).drop_last() =~= gs.subrange(
                    0,
                    slots@.len() - 1,
                ));
            }
            let s = match slots.pop() {
                Some(s) => s,
                None => vstd::pervasive::unreached(),
            };
            match s {
                Slot::Live(v) => {
                    rem.push(v);
                },
                Slot::Zeroed => {
                    proof {
                        assert(false);
                    }
                },
            }
        }
        let r = IntoIter { handle, rem, total, done: false };
        proof {
            assert(r.remaining() =~= live_values(gs));
        }
        r
    }
}

} // verus!
