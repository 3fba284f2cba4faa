//! Safe initialisation protocol: a forward-only cursor that owns the array
//! and walks its slots once.  Each slot can be inspected, set (setting a
//! slot that is already live replaces the old value; setting a zeroed slot
//! never treats the zero bytes as a live value), or skipped; bulk helpers
//! fill every remaining unset slot, and abandoning the cursor zeroes every
//! slot it has not visited.

use vstd::prelude::*;

use crate::array::{HeapArray, Slot};

verus! {

/// Single-pass cursor over an array's slots, for initialising them.
pub struct InitIter<T> {
    pub arr: HeapArray<T>,
    pub idx: usize,
}

impl<T> HeapArray<T> {
    /// Start the initialisation protocol: the cursor takes ownership and
    /// [`InitIter::finish`] or a bulk helper hands the array back.
    pub fn initialise(self) -> (r: InitIter<T>)
        ensures
            r.arr == self,
            r.idx == 0,
    {
        InitIter { arr: self, idx: 0 }
    }
}

impl<T> InitIter<T> {
    /// The cursor sits on a slot it may still visit.
    pub open spec fn in_range(self) -> bool {
        self.idx <= self.arr@.len()
    }

    /// Whether a slot remains to visit.
    pub fn has_next(&self) -> (r: bool)
        ensures
            r == (self.idx < self.arr@.len()),
    {
        self.idx < self.arr.len()
    }

    /// Whether the current slot already holds a live value.
    pub fn is_init(&self) -> (r: bool)
        requires
            self.idx < self.arr@.len(),
        ensures
            r == (self.arr@[self.idx as int] is Live),
    {
        match self.arr.get_ref(self.idx) {
            Slot::Live(_) => true,
            Slot::Zeroed => false,
        }
    }

    /// Set the current slot to `value`.  A zeroed slot's bytes are never
    /// treated as a live value; a live slot's old value is replaced.
    pub fn put(&mut self, value: T)
        requires
            old(self).idx < old(self).arr@.len(),
        ensures
            final(self).arr@ == old(self).arr@.update(old(self).idx as int, Slot::Live(value)),
            final(self).arr.handle == old(self).arr.handle,
            final(self).arr.drop_check == old(self).arr.drop_check,
            final(self).idx == old(self).idx,
    {
        let i = self.idx;
        self.arr.replace_and_forget(i, value);
    }

    /// Reference to the current slot's value, if it has been initialised.
    pub fn get(&self) -> (r: Option<&T>)
        requires
            self.idx < self.arr@.len(),
        ensures
            self.arr@[self.idx as int] matches Slot::Live(v) ==> r matches Some(p) && *p == v,
            self.arr@[self.idx as int] is Zeroed ==> r is None,
    {
        match self.arr.get_ref(self.idx) {
            Slot::Live(v) => Some(v),
            Slot::Zeroed => None,
        }
    }

    /// Step to the next slot.
    pub fn advance(&mut self)
        requires
            old(self).idx < old(self).arr@.len(),
        ensures
            final(self).arr == old(self).arr,
            final(self).idx == old(self).idx + 1,
    {
        let n = self.arr.len();
        proof {
            assert(self.idx < n);
        }
        self.idx = self.idx + 1;
    }

    /// End the pass and hand the array back as it stands.
    pub fn finish(self) -> (r: HeapArray<T>)
        ensures
            r == self.arr,
    {
        self.arr
    }

    /// Abandon the pass: every slot from the cursor on is zeroed, never
    /// treated as a live value.
    pub fn uninit(self) -> (r: HeapArray<T>)
        requires
            self.in_range(),
        ensures
            r@.len() == self.arr@.len(),
            forall|i: int| 0 <= i < self.idx ==> r@[i] == self.arr@[i],
            forall|i: int| self.idx <= i < r@.len() ==> r@[i] is Zeroed,
            r.handle == self.arr.handle,
            r.drop_check == self.arr.drop_check,
    {
        let InitIter { arr, idx } = self;
        let mut arr = arr;
        let n = arr.len();
        let mut i = idx;
        while i < n
            invariant
                n == arr@.len(),
                idx <= i <= n,
                forall|j: int| 0 <= j < idx ==> arr@[j] == self.arr@[j],
                forall|j: int| idx <= j < i ==> arr@[j] is Zeroed,
                forall|j: int| i <= j < n ==> arr@[j] == self.arr@[j],
                arr.handle == self.arr.handle,
                arr.drop_check == self.arr.drop_check,
            decreases n - i,
        {
            arr.slots[i] = Slot::Zeroed;
            i = i + 1;
        }
        arr
    }
}

impl<T> HeapArray<T> {
    /// Reference to the slot at `index`.
    pub(crate) fn get_ref(&self, index: usize) -> (r: &Slot<T>)
        requires
            index < self@.len(),
        ensures
            *r == self@[index as int],
    {
        &self.slots[index]
    }
}

/// Bulk helpers of the initialisation cursor: fill every remaining unset
/// slot, by clone, by a production function, or by the type's default.
pub trait InitIterExt<T>: Sized {
    /// The array the cursor owns.
    spec fn cursor_arr(self) -> HeapArray<T>;

    /// The slot the cursor sits on.
    spec fn cursor_idx(self) -> nat;

    /// Fill every remaining unset slot with a clone of `value`, and hand the
    /// array back.
    fn fill(self, value: T) -> (r: HeapArray<T>) where T: Clone
        requires
            self.cursor_idx() <= self.cursor_arr()@.len(),
        ensures
            r@.len() == self.cursor_arr()@.len(),
            forall|i: int| 0 <= i < self.cursor_idx() ==> r@[i] == self.cursor_arr()@[i],
            forall|i: int|
                self.cursor_idx() <= i < r@.len() ==> if self.cursor_arr()@[i] is Live {
                    r@[i] == self.cursor_arr()@[i]
                } else {
                    r@[i] matches Slot::Live(v) && vstd::pervasive::cloned(value, v)
                },
            r.handle == self.cursor_arr().handle,
            r.drop_check == self.cursor_arr().drop_check,
    ;

    /// Fill every remaining unset slot with output of `func`, and hand the
    /// array back.
    fn fill_with<F: Fn() -> T>(self, func: F) -> (r: HeapArray<T>)
        requires
            self.cursor_idx() <= self.cursor_arr()@.len(),
            call_requires(func, ()),
        ensures
            r@.len() == self.cursor_arr()@.len(),
            forall|i: int| 0 <= i < self.cursor_idx() ==> r@[i] == self.cursor_arr()@[i],
            forall|i: int|
                self.cursor_idx() <= i < r@.len() ==> if self.cursor_arr()@[i] is Live {
                    r@[i] == self.cursor_arr()@[i]
                } else {
                    r@[i] matches Slot::Live(v) && call_ensures(func, (), v)
                },
            r.handle == self.cursor_arr().handle,
            r.drop_check == self.cursor_arr().drop_check,
    ;

    /// Fill every remaining unset slot with the type's default value, and
    /// hand the array back.
    fn fill_default(self) -> (r: HeapArray<T>) where T: Default
        requires
            self.cursor_idx() <= self.cursor_arr()@.len(),
        ensures
            r@.len() == self.cursor_arr()@.len(),
            forall|i: int| 0 <= i < self.cursor_idx() ==> r@[i] == self.cursor_arr()@[i],
            forall|i: int|
                self.cursor_idx() <= i < r@.len() ==> if self.cursor_arr()@[i] is Live {
                    r@[i] == self.cursor_arr()@[i]
                } else {
                    r@[i] matches Slot::Live(v) && call_ensures(T::default, (), v)
                },
            r.handle == self.cursor_arr().handle,
            r.drop_check == self.cursor_arr().drop_check,
    ;
}

impl<T> InitIterExt<T> for InitIter<T> {
    open spec fn cursor_arr(self) -> HeapArray<T> {
        self.arr
    }

    open spec fn cursor_idx(self) -> nat {
        self.idx as nat
    }

    fn fill(self, value: T) -> (r: HeapArray<T>) where T: Clone {
        let mut it = self;
        while it.has_next()
            invariant
                self.idx <= it.idx <= it.arr@.len(),
                it.arr@.len() == self.arr@.len(),
                it.arr.handle == self.arr.handle,
                it.arr.drop_check == self.arr.drop_check,
                forall|j: int| 0 <= j < self.idx ==> it.arr@[j] == self.arr@[j],
                forall|j: int|
                    self.idx <= j < it.idx ==> if self.arr@[j] is Live {
                        it.arr@[j] == self.arr@[j]
                    } else {
                        it.arr@[j] matches Slot::Live(v) && vstd::pervasive::cloned(value, v)
                    },
                forall|j: int| it.idx <= j < it.arr@.len() ==> it.arr@[j] == self.arr@[j],
            decreases it.arr@.len() - it.idx,
        {
            if !it.is_init() {
                it.put(value.clone());
            }
            it.advance();
        }
        it.finish()
    }

    fn fill_with<F: Fn() -> T>(self, func: F) -> (r: HeapArray<T>) {
        let mut it = self;
        while it.has_next()
            invariant
                call_requires(func, ()),
                self.idx <= it.idx <= it.arr@.len(),
                it.arr@.len() == self.arr@.len(),
                it.arr.handle == self.arr.handle,
                it.arr.drop_check == self.arr.drop_check,
                forall|j: int| 0 <= j < self.idx ==> it.arr@[j] == self.arr@[j],
                forall|j: int|
                    self.idx <= j < it.idx ==> if self.arr@[j] is Live {
                        it.arr@[j] == self.arr@[j]
                    } else {
                        it.arr@[j] matches Slot::Live(v) && call_ensures(func, (), v)
                    },
                forall|j: int| it.idx <= j < it.arr@.len() ==> it.arr@[j] == self.arr@[j],
            decreases it.arr@.len() - it.idx,
        {
            if !it.is_init() {
                let v = func();
                it.put(v);
            }
            it.advance();
        }
        it.finish()
    }

    fn fill_default(self) -> (r: HeapArray<T>) where T: Default {
        let mut it = self;
        while it.has_next()
            invariant
                self.idx <= it.idx <= it.arr@.len(),
                it.arr@.len() == self.arr@.len(),
                it.arr.handle == self.arr.handle,
                it.arr.drop_check == self.arr.drop_check,
                forall|j: int| 0 <= j < self.idx ==> it.arr@[j] == self.arr@[j],
                forall|j: int|
                    self.idx <= j < it.idx ==> if self.arr@[j] is Live {
                        it.arr@[j] == self.arr@[j]
                    } else {
                        it.arr@[j] matches Slot::Live(v) && call_ensures(T::default, (), v)
                    },
                forall|j: int| it.idx <= j < it.arr@.len() ==> it.arr@[j] == self.arr@[j],
            decreases it.arr@.len() - it.idx,
        {
            if !it.is_init() {
                let v = T::default();
                it.put(v);
            }
            it.advance();
        }
        it.finish()
    }
}

} // verus!
