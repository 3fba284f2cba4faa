//! Stores of individually allocated values: each entry owns one allocation.
//! Teardown releases every entry exactly once; removing entries hands their
//! values back instead of freeing them; a typed store can be drained into a
//! single contiguous array.

use vstd::prelude::*;

use crate::allocator::{alloc_step, lemma_live_not_null, Allocator, Handle};
use crate::array::{as_live_slots, lemma_wf_after_free, HeapArray, Slot};

verus! {

broadcast use lemma_live_not_null;

/// The entries of `s` whose handle is not `h`, in order.
pub open spec fn entries_kept<T>(s: Seq<(Handle, T)>, h: Handle) -> Seq<(Handle, T)>
    decreases s.len(),
{
    if s.len() == 0 {
        Seq::empty()
    } else {
        let rest = entries_kept(s.drop_last(), h);
        if s.last().0 == h {
            rest
        } else {
            rest.push(s.last())
        }
    }
}

/// The values of the entries of `s` whose handle is `h`, in order.
pub open spec fn values_removed<T>(s: Seq<(Handle, T)>, h: Handle) -> Seq<T>
    decreases s.len(),
{
    if s.len() == 0 {
        Seq::empty()
    } else {
        let rest = values_removed(s.drop_last(), h);
        if s.last().0 == h {
            rest.push(s.last().1)
        } else {
            rest
        }
    }
}

/// Statically typed store: every entry is one allocation holding one value.
pub struct Store<T> {
    pub entries: Vec<(Handle, T)>,
}

impl<T> Store<T> {
    /// The entries' handles, in insertion order.
    pub open spec fn handles(self) -> Seq<Handle> {
        Seq::new(self.entries@.len(), |i: int| self.entries@[i].0)
    }

    /// The entries' values, in insertion order.
    pub open spec fn values(self) -> Seq<T> {
        Seq::new(self.entries@.len(), |i: int| self.entries@[i].1)
    }

    /// Every entry's handle is live, and no handle is owned twice.
    pub open spec fn wf(self, al: Allocator) -> bool {
        &&& forall|i: int| 0 <= i < self.handles().len() ==> al.live(#[trigger] self.handles()[i])
        &&& forall|i: int, j: int|
            0 <= i < j < self.handles().len() ==> self.handles()[i] != self.handles()[j]
    }

    /// Empty store.
    pub fn new() -> (r: Self)
        ensures
            r.entries@ == Seq::<(Handle, T)>::empty(),
    {
        Store { entries: Vec::new() }
    }

    /// Take ownership of the allocation `h` holding `value`; returns the
    /// same handle for chaining.
    pub fn ptr(&mut self, h: Handle, value: T) -> (r: Handle)
        ensures
            final(self).entries@ == old(self).entries@.push((h, value)),
            r == h,
    {
        self.entries.push((h, value));
        h
    }

    /// Relinquish ownership of every entry whose handle equals `h`, handing
    /// their values back in insertion order; nothing is freed.
    pub fn remove(&mut self, h: Handle) -> (r: Vec<T>)
        ensures
            final(self).entries@ == entries_kept(old(self).entries@, h),
            r@ == values_removed(old(self).entries@, h),
    {
        let ghost ge = self.entries@;
        let mut kept: Vec<(Handle, T)> = Vec::new();
        let mut out: Vec<T> = Vec::new();
        let mut i: usize = 0;
        let n = self.entries.len();
        while self.entries.len() > 0
            invariant
                ge.len() == n,
                i <= n,
                self.entries@ == ge.skip(i as int),
                kept@ == entries_kept(ge.subrange(0, i as int), h),
                out@ == values_removed(ge.subrange(0, i as int), h),
            decreases self.entries@.len(),
        {
            let e = self.entries.remove(0);
            proof {
                assert(ge.skip(i as int).drop_first() =~= ge.skip(i + 1));
                assert(ge.subrange(0, i + 1).drop_last() =~= ge.subrange(0, i as int));
                assert(ge.subrange(0, i + 1).last() == e);
            }
            if e.0 == h {
                out.push(e.1);
            } else {
                kept.push(e);
            }
            i = i + 1;
        }
        proof {
            assert(ge.subrange(0, n as int) =~= ge);
        }
        self.entries = kept;
        out
    }

    /// Consume the store into its entries without freeing anything.
    pub fn into_raw_parts(self) -> (r: Vec<(Handle, T)>)
        ensures
            r@ == self.entries@,
    {
        let Store { entries } = self;
        entries
    }

    /// Build a store from entries; the caller vouches that the handles are
    /// live and distinct, as `wf` demands.
    pub fn from_raw_parts(entries: Vec<(Handle, T)>) -> (r: Self)
        ensures
            r.entries@ == entries@,
    {
        Store { entries }
    }

    /// Release every entry's allocation without counting the values as
    /// destroyed.
    pub fn free(self, al: &mut Allocator)
        requires
            self.wf(*old(al)),
        ensures
            forall|i: int|
                0 <= i < self.handles().len() ==> !final(al).live(#[trigger] self.handles()[i]),
            forall|h2: Handle|
                !self.handles().contains(h2) ==> final(al).live(h2) == old(al).live(h2),
            forall|h2: Handle|
                !self.handles().contains(h2) ==> final(al).block_size(h2) == old(al).block_size(
                    h2,
                ),
            forall|h2: Handle| final(al).issued(h2) == old(al).issued(h2),
            final(al).live_count() == old(al).live_count() - self.handles().len(),
            final(al).elides_zero() == old(al).elides_zero(),
    {
        let ghost hs = self.handles();
        let Store { entries } = self;
        let mut entries = entries;
        while entries.len() > 0
            invariant
                hs.len() >= entries@.len(),
                forall|j: int| 0 <= j < entries@.len() ==> #[trigger] hs[j] == entries@[j].0,
                forall|a: int, b: int| 0 <= a < b < hs.len() ==> hs[a] != hs[b],
                forall|j: int| entries@.len() <= j < hs.len() ==> !al.live(#[trigger] hs[j]),
                forall|j: int| 0 <= j < entries@.len() ==> al.live(#[trigger] hs[j]),
                forall|h2: Handle| !hs.contains(h2) ==> al.live(h2) == old(al).live(h2),
                forall|h2: Handle|
                    !hs.contains(h2) ==> al.block_size(h2) == old(al).block_size(h2),
                forall|h2: Handle| al.issued(h2) == old(al).issued(h2),
                al.live_count() == old(al).live_count() - (hs.len() - entries@.len()),
                al.elides_zero() == old(al).elides_zero(),
            decreases entries@.len(),
        {
            let ghost m = entries@.len() as int;
            let e = match entries.pop() {
                Some(e) => e,
                None => vstd::pervasive::unreached(),
            };
            proof {
                assert(e.0 == hs[m - 1]);
                assert(hs.contains(hs[m - 1]));
                assert(forall|j: int| 0 <= j < m - 1 ==> #[trigger] hs[j] != hs[m - 1]);
            }
            al.free(e.0);
        }
    }

    /// Teardown: every remaining value counts as destroyed and every entry's
    /// allocation is released.
    pub fn dispose(self, al: &mut Allocator) -> (destroyed: usize)
        requires
            self.wf(*old(al)),
        ensures
            destroyed == self.entries@.len(),
            forall|i: int|
                0 <= i < self.handles().len() ==> !final(al).live(#[trigger] self.handles()[i]),
            forall|h2: Handle|
                !self.handles().contains(h2) ==> final(al).live(h2) == old(al).live(h2),
            forall|h2: Handle| final(al).issued(h2) == old(al).issued(h2),
            final(al).live_count() == old(al).live_count() - self.handles().len(),
            final(al).elides_zero() == old(al).elides_zero(),
    {
        let n = self.entries.len();
        self.free(al);
        n
    }

    /// Drain the store into one contiguous array: the values move over in
    /// insertion order, every entry's own allocation is released, and only
    /// the array's fresh allocation remains.
    pub fn into_heap_array(self, al: &mut Allocator) -> (r: HeapArray<T>)
        requires
            self.wf(*old(al)),
            self.entries@.len() * vstd::layout::size_of::<T>() <= usize::MAX,
        ensures
            r.wf(*final(al)),
            r@ == as_live_slots(self.values()),
            r.values() == self.values(),
            r@.len() == self.entries@.len(),
            r.drop_check,
            forall|i: int|
                0 <= i < self.handles().len() ==> !final(al).live(#[trigger] self.handles()[i]),
            forall|h2: Handle|
                h2 != r.handle && !self.handles().contains(h2) ==> final(al).live(h2) == old(
                    al,
                ).live(h2),
            final(al).live_count() == old(al).live_count() - self.handles().len() + (
            if r.handle.is_null() {
                0int
            } else {
                1int
            }),
            final(al).elides_zero() == old(al).elides_zero(),
    {
        let ghost hs = self.handles();
        let ghost vs = self.values();
        let Store { entries } = self;
        let n = entries.len();
        let mut arr = HeapArray::new_uninit(al, n);
        proof {
            assert forall|j: int| 0 <= j < n implies al.live(#[trigger] hs[j]) && hs[j]
                != arr.handle by {
                assert(old(al).live(hs[j]));
            }
        }
        let ghost al1 = *al;
        let mut entries = entries;
        while entries.len() > 0
            invariant
                hs.len() == n,
                vs.len() == n,
                n == arr@.len(),
                entries@.len() <= n,
                forall|j: int|
                    0 <= j < entries@.len() ==> #[trigger] hs[j] == entries@[j].0 && vs[j]
                        == entries@[j].1,
                forall|a: int, b: int| 0 <= a < b < n ==> hs[a] != hs[b],
                arr.wf(*al),
                arr.drop_check,
                forall|j: int| entries@.len() <= j < n ==> !al.live(#[trigger] hs[j]),
                forall|j: int|
                    0 <= j < entries@.len() ==> al.live(#[trigger] hs[j]) && hs[j] != arr.handle,
                forall|j: int| entries@.len() <= j < n ==> arr@[j] == Slot::Live(vs[j]),
                forall|h2: Handle|
                    h2 != arr.handle && !hs.contains(h2) ==> al.live(h2) == al1.live(h2),
                al.live_count() == al1.live_count() - (n - entries@.len()),
                al.elides_zero() == al1.elides_zero(),
                alloc_step(*old(al), al1, arr.handle, (n * vstd::layout::size_of::<T>()) as nat),
            decreases entries@.len(),
        {
            let ghost m = entries@.len() as int;
            let idx = entries.len() - 1;
            let e = match entries.pop() {
                Some(e) => e,
                None => vstd::pervasive::unreached(),
            };
            proof {
                assert(e.0 == hs[m - 1]);
                assert(e.1 == vs[m - 1]);
                assert(hs.contains(hs[m - 1]));
                assert(forall|j: int| 0 <= j < m - 1 ==> #[trigger] hs[j] != hs[m - 1]);
            }
            arr.replace_and_forget(idx, e.1);
            let ghost al_before = *al;
            al.free(e.0);
            proof {
                lemma_wf_after_free(arr, al_before, *al, e.0);
            }
        }
        proof {
            assert(arr@ =~= as_live_slots(vs));
            crate::array::lemma_live_slots_round_trip(arr@, vs);
        }
        arr
    }
}

/// Type-erased store: it owns allocations without knowing what they hold,
/// so teardown can only release them.
pub struct DynStore {
    pub pointers: Vec<Handle>,
}

/// The handles of `s` not equal to `h`, in order.
pub open spec fn handles_kept(s: Seq<Handle>, h: Handle) -> Seq<Handle>
    decreases s.len(),
{
    if s.len() == 0 {
        Seq::empty()
    } else {
        let rest = handles_kept(s.drop_last(), h);
        if s.last() == h {
            rest
        } else {
            rest.push(s.last())
        }
    }
}

impl DynStore {
    /// Every handle is live, and no handle is owned twice.
    pub open spec fn wf(self, al: Allocator) -> bool {
        &&& forall|i: int| 0 <= i < self.pointers@.len() ==> al.live(#[trigger] self.pointers@[i])
        &&& forall|i: int, j: int|
            0 <= i < j < self.pointers@.len() ==> self.pointers@[i] != self.pointers@[j]
    }

    /// Empty store.
    pub fn new() -> (r: Self)
        ensures
            r.pointers@ == Seq::<Handle>::empty(),
    {
        DynStore { pointers: Vec::new() }
    }

    /// Take ownership of the allocation `h`; returns the same handle for
    /// chaining.
    pub fn ptr(&mut self, h: Handle) -> (r: Handle)
        ensures
            final(self).pointers@ == old(self).pointers@.push(h),
            r == h,
    {
        self.pointers.push(h);
        h
    }

    /// Relinquish ownership of every handle equal to `h`; nothing is freed.
    pub fn remove(&mut self, h: Handle)
        ensures
            final(self).pointers@ == handles_kept(old(self).pointers@, h),
    {
        let ghost ge = self.pointers@;
        let mut kept: Vec<Handle> = Vec::new();
        let mut i: usize = 0;
        let n = self.pointers.len();
        while self.pointers.len() > 0
            invariant
                ge.len() == n,
                i <= n,
                self.pointers@ == ge.skip(i as int),
                kept@ == handles_kept(ge.subrange(0, i as int), h),
            decreases self.pointers@.len(),
        {
            let p = self.pointers.remove(0);
            proof {
                assert(ge.skip(i as int).drop_first() =~= ge.skip(i + 1));
                assert(ge.subrange(0, i + 1).drop_last() =~= ge.subrange(0, i as int));
                assert(ge.subrange(0, i + 1).last() == p);
            }
            if p != h {
                kept.push(p);
            }
            i = i + 1;
        }
        proof {
            assert(ge.subrange(0, n as int) =~= ge);
        }
        self.pointers = kept;
    }

    /// Consume the store into its handles without freeing anything.
    pub fn into_raw_parts(self) -> (r: Vec<Handle>)
        ensures
            r@ == self.pointers@,
    {
        let DynStore { pointers } = self;
        pointers
    }

    /// Build a store from handles; the caller vouches that they are live and
    /// distinct, as `wf` demands.
    pub fn from_raw_parts(pointers: Vec<Handle>) -> (r: Self)
        ensures
            r.pointers@ == pointers@,
    {
        DynStore { pointers }
    }

    /// Release every owned allocation; with no type information there are no
    /// values to destroy.
    pub fn free(self, al: &mut Allocator)
        requires
            self.wf(*old(al)),
        ensures
            forall|i: int|
                0 <= i < self.pointers@.len() ==> !final(al).live(#[trigger] self.pointers@[i]),
            forall|h2: Handle|
                !self.pointers@.contains(h2) ==> final(al).live(h2) == old(al).live(h2),
            forall|h2: Handle|
                !self.pointers@.contains(h2) ==> final(al).block_size(h2) == old(al).block_size(
                    h2,
                ),
            forall|h2: Handle| final(al).issued(h2) == old(al).issued(h2),
            final(al).live_count() == old(al).live_count() - self.pointers@.len(),
            final(al).elides_zero() == old(al).elides_zero(),
    {
        let ghost hs = self.pointers@;
        let DynStore { pointers } = self;
        let mut pointers = pointers;
        while pointers.len() > 0
            invariant
                hs.len() >= pointers@.len(),
                pointers@ == hs.subrange(0, pointers@.len() as int),
                forall|a: int, b: int| 0 <= a < b < hs.len() ==> hs[a] != hs[b],
                forall|j: int| pointers@.len() <= j < hs.len() ==> !al.live(#[trigger] hs[j]),
                forall|j: int| 0 <= j < pointers@.len() ==> al.live(#[trigger] hs[j]),
                forall|h2: Handle| !hs.contains(h2) ==> al.live(h2) == old(al).live(h2),
                forall|h2: Handle|
                    !hs.contains(h2) ==> al.block_size(h2) == old(al).block_size(h2),
                forall|h2: Handle| al.issued(h2) == old(al).issued(h2),
                al.live_count() == old(al).live_count() - (hs.len() - pointers@.len()),
                al.elides_zero() == old(al).elides_zero(),
            decreases pointers@.len(),
        {
            let ghost m = pointers@.len() as int;
            let p = match pointers.pop() {
                Some(p) => p,
                None => vstd::pervasive::unreached(),
            };
            proof {
                assert(p == hs[m - 1]);
                assert(hs.contains(hs[m - 1]));
                assert(forall|j: int| 0 <= j < m - 1 ==> #[trigger] hs[j] != hs[m - 1]);
                assert(pointers@ =~= hs.subrange(0, m - 1));
            }
            al.free(p);
        }
    }
}

} // verus!
