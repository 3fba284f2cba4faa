//! The owned array: one allocation of the model allocator, a sequence of
//! element slots, and a destructor policy flag.  A slot is either `Zeroed`
//! (zero bytes, no live value) or `Live` (holds a value); the
//! well-formedness predicate ties the handle to a live allocation of exactly
//! the array's byte length.

use vstd::prelude::*;

use crate::allocator::{alloc_step, free_step, realloc_step, Allocator, Handle};
use crate::pod::Pod;

verus! {

broadcast use vstd::layout::layout_of_primitives;

/// One element-sized storage location: zero bytes, or a live value.
#[derive(Debug)]
pub enum Slot<T> {
    Zeroed,
    Live(T),
}

/// Every slot holds a live value.
pub open spec fn all_live<T>(s: Seq<Slot<T>>) -> bool {
    forall|i: int| 0 <= i < s.len() ==> s[i] is Live
}

/// The values of a fully live slot sequence, in slot order.
pub open spec fn live_values<T>(s: Seq<Slot<T>>) -> Seq<T> {
    Seq::new(s.len(), |i: int| s[i]->Live_0)
}

/// The slot sequence holding exactly the given values, in order.
pub open spec fn as_live_slots<T>(v: Seq<T>) -> Seq<Slot<T>> {
    Seq::new(v.len(), |i: int| Slot::Live(v[i]))
}

/// `n` zero bytes.
pub open spec fn zero_bytes(n: nat) -> Seq<u8> {
    Seq::new(n, |i: int| 0u8)
}

/// The byte image of one slot: a live value's image, or all zeroes.
pub open spec fn slot_bytes<T: Pod>(s: Slot<T>) -> Seq<u8> {
    match s {
        Slot::Live(v) => v.enc(),
        Slot::Zeroed => zero_bytes(vstd::layout::size_of::<T>()),
    }
}

/// The byte image of a slot sequence: the slots' images, concatenated in
/// order.
pub open spec fn slots_bytes<T: Pod>(s: Seq<Slot<T>>) -> Seq<u8>
    decreases s.len(),
{
    if s.len() == 0 {
        Seq::empty()
    } else {
        slots_bytes(s.drop_last()) + slot_bytes(s.last())
    }
}

pub proof fn lemma_slot_bytes_len<T: Pod>(s: Slot<T>)
    ensures
        slot_bytes(s).len() == vstd::layout::size_of::<T>(),
{
    match s {
        Slot::Live(v) => v.lemma_enc_len(),
        Slot::Zeroed => {},
    }
}

pub proof fn lemma_slots_bytes_len<T: Pod>(s: Seq<Slot<T>>)
    ensures
        slots_bytes(s).len() == s.len() * vstd::layout::size_of::<T>(),
    decreases s.len(),
{
    if s.len() == 0 {
    } else {
        lemma_slots_bytes_len(s.drop_last());
        lemma_slot_bytes_len(s.last());
        assert(s.len() * vstd::layout::size_of::<T>() == (s.len() - 1) * vstd::layout::size_of::<
            T,
        >() + vstd::layout::size_of::<T>()) by (nonlinear_arith);
    }
}

/// An array whose slots are all zeroed is, byte for byte, zero.
pub proof fn lemma_zeroed_slots_bytes<T: Pod>(s: Seq<Slot<T>>)
    requires
        forall|i: int| 0 <= i < s.len() ==> s[i] is Zeroed,
    ensures
        slots_bytes(s) == zero_bytes(s.len() * vstd::layout::size_of::<T>()),
    decreases s.len(),
{
    if s.len() == 0 {
        assert(slots_bytes(s) =~= zero_bytes(s.len() * vstd::layout::size_of::<T>()));
    } else {
        lemma_zeroed_slots_bytes(s.drop_last());
        lemma_slots_bytes_len(s);
        assert(slots_bytes(s) =~= zero_bytes(s.len() * vstd::layout::size_of::<T>()));
    }
}

/// Consuming a fully live slot sequence into its values and wrapping those
/// values back into slots is the identity, in both directions.
pub proof fn lemma_live_slots_round_trip<T>(s: Seq<Slot<T>>, v: Seq<T>)
    requires
        all_live(s),
    ensures
        as_live_slots(live_values(s)) == s,
        live_values(as_live_slots(v)) == v,
{
    assert(as_live_slots(live_values(s)) =~= s);
    assert(live_values(as_live_slots(v)) =~= v);
}

/// Array backed by an allocation of the model allocator; released by
/// [`HeapArray::free`] or [`HeapArray::dispose`], or consumed.
pub struct HeapArray<T> {
    pub handle: Handle,
    pub slots: Vec<Slot<T>>,
    /// Whether teardown counts the live elements as destroyed.  Not needed
    /// for types without destructors, or when the elements' ownership has
    /// been handed elsewhere.
    pub drop_check: bool,
}

impl<T> View for HeapArray<T> {
    type V = Seq<Slot<T>>;

    open spec fn view(&self) -> Seq<Slot<T>> {
        self.slots@
    }
}

impl<T> HeapArray<T> {
    /// Logical byte length: element count times element size.
    pub open spec fn spec_len_bytes(self) -> nat {
        self@.len() * vstd::layout::size_of::<T>()
    }

    /// The handle is the null sentinel only for a zero-byte array, and
    /// otherwise refers to a live allocation of exactly the array's byte
    /// length.
    pub open spec fn wf(self, al: Allocator) -> bool {
        &&& self.spec_len_bytes() <= usize::MAX
        &&& if self.handle.is_null() {
            self.spec_len_bytes() == 0
        } else {
            al.live(self.handle) && al.block_size(self.handle) == self.spec_len_bytes()
        }
    }

    /// Every slot holds a live value.
    pub open spec fn spec_all_live(self) -> bool {
        all_live(self@)
    }

    /// The values of a fully live array, in index order.
    pub open spec fn values(self) -> Seq<T> {
        live_values(self@)
    }

    /// Number of elements.
    pub fn len(&self) -> (r: usize)
        ensures
            r == self@.len(),
    {
        self.slots.len()
    }

    /// Size of one element in bytes.
    pub fn element_size() -> (r: usize)
        ensures
            r == vstd::layout::size_of::<T>(),
    {
        core::mem::size_of::<T>()
    }

    /// Whether elements are single bytes.
    pub fn is_single() -> (r: bool)
        ensures
            r == (vstd::layout::size_of::<T>() == 1),
    {
        core::mem::size_of::<T>() == 1
    }

    /// Size of the whole array in bytes.
    pub fn len_bytes(&self) -> (r: usize)
        requires
            self.spec_len_bytes() <= usize::MAX,
        ensures
            r == self.spec_len_bytes(),
    {
        self.slots.len() * core::mem::size_of::<T>()
    }

    /// The handle of the backing allocation.
    pub fn as_ptr(&self) -> (r: Handle)
        ensures
            r == self.handle,
    {
        self.handle
    }

    /// The handle of the backing allocation.
    pub fn as_ptr_mut(&mut self) -> (r: Handle)
        ensures
            r == old(self).handle,
            *final(self) == *old(self),
    {
        self.handle
    }

    /// Zeroed array of `size` elements: every slot starts as zero bytes.
    pub fn new(al: &mut Allocator, size: usize) -> (r: Self)
        requires
            size * vstd::layout::size_of::<T>() <= usize::MAX,
        ensures
            r.wf(*final(al)),
            r@.len() == size,
            forall|i: int| 0 <= i < size ==> r@[i] is Zeroed,
            r.drop_check,
            alloc_step(*old(al), *final(al), r.handle, (size * vstd::layout::size_of::<T>()) as nat),
    {
        let h = match al.calloc(size, core::mem::size_of::<T>()) {
            Ok(h) => h,
            Err(_) => vstd::pervasive::unreached(),
        };
        let slots = zeroed_slots(size);
        HeapArray { handle: h, slots, drop_check: true }
    }

    /// Array of `size` elements whose contents are unspecified until
    /// written; consume values only after initialising the slots.
    pub fn new_uninit(al: &mut Allocator, size: usize) -> (r: Self)
        requires
            size * vstd::layout::size_of::<T>() <= usize::MAX,
        ensures
            r.wf(*final(al)),
            r@.len() == size,
            r.drop_check,
            alloc_step(*old(al), *final(al), r.handle, (size * vstd::layout::size_of::<T>()) as nat),
    {
        let h = match al.malloc(size * core::mem::size_of::<T>()) {
            Ok(h) => h,
            Err(_) => vstd::pervasive::unreached(),
        };
        let slots = zeroed_slots(size);
        HeapArray { handle: h, slots, drop_check: true }
    }

    /// Overwrite slot `index` with `value` without treating the old contents
    /// as a live value; meant for slots that are not initialised yet.
    pub fn replace_and_forget(&mut self, index: usize, value: T)
        requires
            index < old(self)@.len(),
        ensures
            final(self)@ == old(self)@.update(index as int, Slot::Live(value)),
            final(self).handle == old(self).handle,
            final(self).drop_check == old(self).drop_check,
    {
        self.slots[index] = Slot::Live(value);
    }

    /// Reference to the live value in slot `index`.
    pub fn get(&self, index: usize) -> (r: &T)
        requires
            index < self@.len(),
            self@[index as int] is Live,
        ensures
            *r == self@[index as int]->Live_0,
    {
        match &self.slots[index] {
            Slot::Live(v) => v,
            Slot::Zeroed => vstd::pervasive::unreached(),
        }
    }

    /// References to all the (live) values, in index order.
    pub fn iter(&self) -> (r: Vec<&T>)
        requires
            self.spec_all_live(),
        ensures
            r@.len() == self@.len(),
            forall|i: int| 0 <= i < r@.len() ==> *r@[i] == self.values()[i],
    {
        let n = self.slots.len();
        let mut r: Vec<&T> = Vec::new();
        let mut i: usize = 0;
        while i < n
            invariant
                n == self@.len(),
                all_live(self@),
                i <= n,
                r@.len() == i,
                forall|j: int| 0 <= j < i ==> *r@[j] == self.values()[j],
            decreases n - i,
        {
            r.push(self.get(i));
            i = i + 1;
        }
        r
    }

    /// Release the backing allocation without touching the elements'
    /// contents (they are not counted as destroyed).
    pub fn free(self, al: &mut Allocator)
        requires
            self.wf(*old(al)),
        ensures
            free_step(*old(al), *final(al), self.handle),
    {
        let HeapArray { handle, slots: _, drop_check: _ } = self;
        al.free(handle);
    }

    /// Teardown: count the live elements as destroyed when the policy flag
    /// asks for it, then release the backing allocation.
    pub fn dispose(self, al: &mut Allocator) -> (destroyed: usize)
        requires
            self.wf(*old(al)),
        ensures
            free_step(*old(al), *final(al), self.handle),
            destroyed == if self.drop_check {
                count_live_slots(self@)
            } else {
                0nat
            },
    {
        let HeapArray { handle, slots, drop_check } = self;
        let destroyed = if drop_check {
            count_slots_exec(&slots)
        } else {
            0
        };
        al.free(handle);
        destroyed
    }
}

/// Number of live slots in a slot sequence.
pub open spec fn count_live_slots<T>(s: Seq<Slot<T>>) -> nat
    decreases s.len(),
{
    if s.len() == 0 {
        0
    } else {
        count_live_slots(s.drop_last()) + if s.last() is Live {
            1nat
        } else {
            0nat
        }
    }
}

pub proof fn lemma_count_live_slots_bound<T>(s: Seq<Slot<T>>)
    ensures
        count_live_slots(s) <= s.len(),
        all_live(s) ==> count_live_slots(s) == s.len(),
    decreases s.len(),
{
    if s.len() > 0 {
        lemma_count_live_slots_bound(s.drop_last());
    }
}

fn count_slots_exec<T>(slots: &Vec<Slot<T>>) -> (r: usize)
    ensures
        r == count_live_slots(slots@),
{
    proof {
        lemma_count_live_slots_bound(slots@);
    }
    let mut n: usize = 0;
    let mut i: usize = 0;
    while i < slots.len()
        invariant
            i <= slots@.len(),
            n == count_live_slots(slots@.subrange(0, i as int)),
            n <= i,
        decreases slots@.len() - i,
    {
        proof {
            assert(slots@.subrange(0, i as int).push(slots@[i as int]) =~= slots@.subrange(
                0,
                i + 1,
            ));
            assert(slots@.subrange(0, i + 1).drop_last() =~= slots@.subrange(0, i as int));
        }
        if let Slot::Live(_) = &slots[i] {
            n = n + 1;
        }
        i = i + 1;
    }
    proof {
        assert(slots@.subrange(0, slots@.len() as int) =~= slots@);
    }
    n
}

fn zeroed_slots<T>(size: usize) -> (r: Vec<Slot<T>>)
    ensures
        r@.len() == size,
        forall|i: int| 0 <= i < size ==> r@[i] is Zeroed,
{
    let mut slots: Vec<Slot<T>> = Vec::new();
    let mut i: usize = 0;
    while i < size
        invariant
            i <= size,
            slots@.len() == i,
            forall|j: int| 0 <= j < i ==> slots@[j] is Zeroed,
        decreases size - i,
    {
        slots.push(Slot::Zeroed);
        i = i + 1;
    }
    slots
}

/// A well-formed array stays well-formed across the release of a different
/// handle.
pub proof fn lemma_wf_after_free<T>(arr: HeapArray<T>, pre: Allocator, post: Allocator, h: Handle)
    requires
        arr.wf(pre),
        free_step(pre, post, h),
        h != arr.handle,
    ensures
        arr.wf(post),
{
}

} // verus!

verus! {

/// The byte images of live slots, concatenated, equal the byte images of the
/// values they hold.
pub proof fn lemma_slots_bytes_of_live<T: Pod>(v: Seq<T>)
    ensures
        slots_bytes(as_live_slots(v)) == crate::pod::enc_all(v),
    decreases v.len(),
{
    if v.len() == 0 {
        assert(slots_bytes(as_live_slots(v)) =~= crate::pod::enc_all(v));
    } else {
        lemma_slots_bytes_of_live(v.drop_last());
        assert(as_live_slots(v).drop_last() =~= as_live_slots(v.drop_last()));
        assert(as_live_slots(v).last() == Slot::Live(v.last()));
    }
}

/// Decode a byte sequence as consecutive values of `U`, in order.
fn decode_values<U: Pod>(bytes: &Vec<u8>) -> (r: Vec<U>)
    requires
        vstd::layout::size_of::<U>() > 0,
        bytes@.len() % vstd::layout::size_of::<U>() == 0,
    ensures
        r@.len() == bytes@.len() / vstd::layout::size_of::<U>(),
        crate::pod::enc_all(r@) == bytes@,
{
    let su = core::mem::size_of::<U>();
    let n = bytes.len() / su;
    proof {
        vstd::arithmetic::div_mod::lemma_fundamental_div_mod(bytes@.len() as int, su as int);
        vstd::arithmetic::mul::lemma_mul_is_commutative(su as int, n as int);
    }
    let ghost total = bytes@.len();
    let mut r: Vec<U> = Vec::new();
    let mut i: usize = 0;
    let mut off: usize = 0;
    while i < n
        invariant
            vstd::layout::size_of::<U>() == su,
            su > 0,
            n as int == bytes@.len() as int / su as int,
            total == bytes@.len(),
            total <= usize::MAX,
            total == n * su,
            i <= n,
            off == i * su,
            off <= total,
            r@.len() == i,
            crate::pod::enc_all(r@) == bytes@.subrange(0, off as int),
        decreases n - i,
    {
        proof {
            assert((i + 1) * su == i * su + su) by (nonlinear_arith);
            vstd::arithmetic::mul::lemma_mul_inequality(i + 1, n as int, su as int);
            assert(off + su <= total);
        }
        let chunk = vstd::slice::slice_subrange(bytes.as_slice(), off, off + su);
        let u = U::of_bytes(chunk);
        let ghost prev = r@;
        r.push(u);
        proof {
            crate::pod::lemma_enc_all_push(prev, u);
            assert(bytes@.subrange(0, off as int) + bytes@.subrange(
                off as int,
                off + su,
            ) =~= bytes@.subrange(0, off + su));
        }
        i = i + 1;
        off = off + su;
    }
    proof {
        assert(bytes@.subrange(0, total as int) =~= bytes@);
    }
    r
}

/// Decode a byte sequence as consecutive live slots of `U`.
fn decode_slots<U: Pod>(bytes: &Vec<u8>) -> (r: Vec<Slot<U>>)
    requires
        vstd::layout::size_of::<U>() > 0,
        bytes@.len() % vstd::layout::size_of::<U>() == 0,
    ensures
        r@.len() == bytes@.len() / vstd::layout::size_of::<U>(),
        all_live(r@),
        slots_bytes(r@) == bytes@,
{
    let vals = decode_values::<U>(bytes);
    proof {
        lemma_slots_bytes_of_live(vals@);
    }
    let n = vals.len();
    let ghost gvals = vals@;
    let mut vals = vals;
    let mut r: Vec<Slot<U>> = Vec::new();
    let mut i: usize = 0;
    while i < n
        invariant
            vals@ == gvals.skip(i as int),
            gvals.len() == n,
            i <= n,
            r@ =~= as_live_slots(gvals).subrange(0, i as int),
        decreases n - i,
    {
        let v = vals.remove(0);
        r.push(Slot::Live(v));
        proof {
            assert(gvals.skip(i as int).drop_first() =~= gvals.skip(i + 1));
        }
        i = i + 1;
    }
    proof {
        assert(r@ =~= as_live_slots(gvals));
    }
    r
}

impl<T: Pod> HeapArray<T> {
    /// The whole array as one byte image: each slot's bytes, in index order.
    pub open spec fn bytes(self) -> Seq<u8> {
        slots_bytes(self@)
    }

    /// Copy of the backing memory as plain bytes.
    pub fn memory(&self) -> (r: Vec<u8>)
        ensures
            r@ == self.bytes(),
            r@.len() == self.spec_len_bytes(),
    {
        proof {
            lemma_slots_bytes_len(self@);
        }
        let su = core::mem::size_of::<T>();
        let n = self.slots.len();
        let mut r: Vec<u8> = Vec::new();
        let mut i: usize = 0;
        while i < n
            invariant
                vstd::layout::size_of::<T>() == su,
                n == self@.len(),
                i <= n,
                r@ == slots_bytes(self@.subrange(0, i as int)),
            decreases n - i,
        {
            proof {
                assert(self@.subrange(0, i + 1).drop_last() =~= self@.subrange(0, i as int));
                assert(self@.subrange(0, i + 1).last() == self@[i as int]);
            }
            match &self.slots[i] {
                Slot::Live(v) => {
                    let mut b = v.to_bytes();
                    r.append(&mut b);
                },
                Slot::Zeroed => {
                    let ghost prefix = r@;
                    let mut j: usize = 0;
                    while j < su
                        invariant
                            j <= su,
                            r@ =~= prefix + zero_bytes(j as nat),
                        decreases su - j,
                    {
                        r.push(0u8);
                        j = j + 1;
                    }
                    proof {
                        assert(slot_bytes(self@[i as int]) =~= zero_bytes(su as nat));
                    }
                },
            }
            i = i + 1;
        }
        proof {
            assert(self@.subrange(0, n as int) =~= self@);
        }
        r
    }

    /// Set every byte of the array to `value`; every slot becomes the live
    /// value whose byte image repeats `value`.
    pub fn set_memory(&mut self, value: u8)
        ensures
            final(self)@.len() == old(self)@.len(),
            final(self).handle == old(self).handle,
            final(self).drop_check == old(self).drop_check,
            forall|i: int|
                0 <= i < old(self)@.len() ==> final(self)@[i] is Live && slot_bytes(
                    #[trigger] final(self)@[i],
                ) == Seq::new(vstd::layout::size_of::<T>(), |j: int| value),
    {
        let su = core::mem::size_of::<T>();
        let mut b: Vec<u8> = Vec::new();
        let mut j: usize = 0;
        while j < su
            invariant
                j <= su,
                b@ =~= Seq::new(j as nat, |k: int| value),
            decreases su - j,
        {
            b.push(value);
            j = j + 1;
        }
        let v = T::of_bytes(b.as_slice());
        let n = self.slots.len();
        let mut i: usize = 0;
        while i < n
            invariant
                n == self@.len(),
                i <= n,
                self.handle == old(self).handle,
                self.drop_check == old(self).drop_check,
                v.enc() == Seq::new(vstd::layout::size_of::<T>(), |k: int| value),
                forall|k: int|
                    0 <= k < i ==> self@[k] is Live && slot_bytes(#[trigger] self@[k]) == Seq::new(
                        vstd::layout::size_of::<T>(),
                        |j: int| value,
                    ),
            decreases n - i,
        {
            self.slots[i] = Slot::Live(v);
            i = i + 1;
        }
    }

    /// New array whose backing memory is a copy of `from`; the byte count
    /// must tile into whole elements.
    pub fn from_bytes(al: &mut Allocator, from: &[u8]) -> (r: Self)
        requires
            vstd::layout::size_of::<T>() > 0,
            from@.len() % vstd::layout::size_of::<T>() == 0,
        ensures
            r.wf(*final(al)),
            r@.len() == from@.len() / vstd::layout::size_of::<T>(),
            all_live(r@),
            r.bytes() == from@,
            r.drop_check,
            alloc_step(*old(al), *final(al), r.handle, from@.len() as nat),
    {
        let h = match al.malloc(from.len()) {
            Ok(h) => h,
            Err(_) => vstd::pervasive::unreached(),
        };
        let mut bytes: Vec<u8> = Vec::new();
        let mut copy = vstd::slice::slice_to_vec(from);
        bytes.append(&mut copy);
        proof {
            assert(bytes@ =~= from@);
        }
        let slots = decode_slots::<T>(&bytes);
        let r = HeapArray { handle: h, slots, drop_check: true };
        proof {
            let l = from@.len() as int;
            let s = vstd::layout::size_of::<T>() as int;
            vstd::arithmetic::div_mod::lemma_fundamental_div_mod(l, s);
            assert((l / s) * s == l) by (nonlinear_arith)
                requires
                    s > 0 && l == s * (l / s),
            ;
        }
        r
    }

    /// Copy bytes in from `from`, overwriting the array's byte image from
    /// the start; copies the shorter of `from` and the array, and returns
    /// the number of bytes copied.
    pub fn memory_from_bytes(&mut self, from: &[u8]) -> (r: usize)
        requires
            vstd::layout::size_of::<T>() > 0,
            old(self).spec_len_bytes() <= usize::MAX,
        ensures
            r == if from@.len() <= old(self).spec_len_bytes() {
                from@.len()
            } else {
                old(self).spec_len_bytes()
            },
            final(self)@.len() == old(self)@.len(),
            final(self).handle == old(self).handle,
            final(self).drop_check == old(self).drop_check,
            all_live(final(self)@),
            final(self).bytes() == from@.subrange(0, r as int) + old(self).bytes().skip(r as int),
    {
        let mut bytes = self.memory();
        let lb = bytes.len();
        let k = if from.len() <= lb {
            from.len()
        } else {
            lb
        };
        let ghost old_bytes = bytes@;
        let mut i: usize = 0;
        while i < k
            invariant
                i <= k,
                k <= bytes@.len(),
                k <= from@.len(),
                bytes@.len() == old_bytes.len(),
                forall|j: int| 0 <= j < i ==> bytes@[j] == from@[j],
                forall|j: int| i <= j < old_bytes.len() ==> bytes@[j] == old_bytes[j],
            decreases k - i,
        {
            bytes[i] = from[i];
            i = i + 1;
        }
        proof {
            assert(bytes@ =~= from@.subrange(0, k as int) + old_bytes.skip(k as int));
            lemma_slots_bytes_len(old(self)@);
            let n0 = old(self)@.len() as int;
            let s0 = vstd::layout::size_of::<T>() as int;
            assert((n0 * s0) % s0 == 0) by (nonlinear_arith)
                requires
                    s0 > 0,
            ;
        }
        let slots = decode_slots::<T>(&bytes);
        proof {
            let n0 = old(self)@.len() as int;
            let s0 = vstd::layout::size_of::<T>() as int;
            assert((n0 * s0) / s0 == n0) by (nonlinear_arith)
                requires
                    s0 > 0,
            ;
        }
        self.slots = slots;
        k
    }
}

} // verus!

verus! {

impl<T> HeapArray<T> {
    /// Array of `size` copies of `initial`.
    pub fn new_repeat(al: &mut Allocator, initial: T, size: usize) -> (r: Self) where T: Copy
        requires
            size * vstd::layout::size_of::<T>() <= usize::MAX,
        ensures
            r.wf(*final(al)),
            r@.len() == size,
            forall|i: int| 0 <= i < size ==> r@[i] == Slot::Live(initial),
            r.drop_check,
            alloc_step(*old(al), *final(al), r.handle, (size * vstd::layout::size_of::<T>()) as nat),
    {
        let mut r = Self::new_uninit(al, size);
        let mut i: usize = 0;
        while i < size
            invariant
                size == r@.len(),
                i <= size,
                forall|j: int| 0 <= j < i ==> r@[j] == Slot::Live(initial),
                r.drop_check,
                r.wf(*al),
                alloc_step(*old(al), *al, r.handle, (size * vstd::layout::size_of::<T>()) as nat),
            decreases size - i,
    {
            r.replace_and_forget(i, initial);
            i = i + 1;
        }
        r
    }

    /// Array of `size` elements where slot `i` holds
    /// `initial[i % initial.len()]`.
    pub fn new_range(al: &mut Allocator, initial: &[T], size: usize) -> (r: Self) where T: Copy
        requires
            size * vstd::layout::size_of::<T>() <= usize::MAX,
            size > 0 ==> initial@.len() > 0,
        ensures
            r.wf(*final(al)),
            r@.len() == size,
            forall|i: int|
                0 <= i < size ==> r@[i] == Slot::Live(initial@[i % initial@.len() as int]),
            r.drop_check,
            alloc_step(*old(al), *final(al), r.handle, (size * vstd::layout::size_of::<T>()) as nat),
    {
        let mut r = Self::new_uninit(al, size);
        let m = initial.len();
        let mut i: usize = 0;
        while i < size
            invariant
                size == r@.len(),
                size > 0 ==> m == initial@.len() && m > 0,
                i <= size,
                forall|j: int| 0 <= j < i ==> r@[j] == Slot::Live(initial@[j % m as int]),
                r.drop_check,
                r.wf(*al),
                alloc_step(*old(al), *al, r.handle, (size * vstd::layout::size_of::<T>()) as nat),
            decreases size - i,
        {
            let v = *vstd::slice::slice_index_get(initial, i % m);
            r.replace_and_forget(i, v);
            i = i + 1;
        }
        r
    }

    /// Consume a buffer into a fresh array: slot `i` holds `v[i]`.
    pub fn from_vec(al: &mut Allocator, v: Vec<T>) -> (r: Self)
        requires
            v@.len() * vstd::layout::size_of::<T>() <= usize::MAX,
        ensures
            r.wf(*final(al)),
            r@ == as_live_slots(v@),
            r.values() == v@,
            r.drop_check,
            alloc_step(*old(al), *final(al), r.handle, (v@.len() * vstd::layout::size_of::<T>()) as nat),
    {
        let ghost gv = v@;
        let mut v = v;
        let mut r = Self::new_uninit(al, v.len());
        let mut i: usize = v.len();
        while i > 0
            invariant
                gv.len() == r@.len(),
                i <= gv.len(),
                v@ == gv.subrange(0, i as int),
                forall|j: int| i <= j < gv.len() ==> r@[j] == Slot::Live(gv[j]),
                r.drop_check,
                r.wf(*al),
                alloc_step(*old(al), *al, r.handle, (gv.len() * vstd::layout::size_of::<T>()) as nat),
            decreases i,
        {
            i = i - 1;
            let x = match v.pop() {
                Some(x) => x,
                None => vstd::pervasive::unreached(),
            };
            proof {
                assert(gv.subrange(0, i + 1).drop_last() =~= gv.subrange(0, i as int));
            }
            r.replace_and_forget(i, x);
        }
        proof {
            assert(r@ =~= as_live_slots(gv));
            lemma_live_slots_round_trip(r@, gv);
        }
        r
    }

    /// Consume a fully live array into a buffer, in index order, and release
    /// the backing allocation.
    pub fn into_vec(self, al: &mut Allocator) -> (r: Vec<T>)
        requires
            self.wf(*old(al)),
            self.spec_all_live(),
        ensures
            r@ == self.values(),
            free_step(*old(al), *final(al), self.handle),
    {
        let HeapArray { handle, slots, drop_check: _ } = self;
        let n = slots.len();
        let ghost gs = slots@;
        let mut slots = slots;
        let mut r: Vec<T> = Vec::new();
        let mut i: usize = 0;
        while i < n
            invariant
                gs.len() == n,
                all_live(gs),
                i <= n,
                slots@ == gs.skip(i as int),
                r@ =~= live_values(gs).subrange(0, i as int),
            decreases n - i,
        {
            let s = slots.remove(0);
            match s {
                Slot::Live(x) => {
                    r.push(x);
                },
                Slot::Zeroed => {
                    proof {
                        assert(false);
                    }
                },
            }
            proof {
                assert(gs.skip(i as int).drop_first() =~= gs.skip(i + 1));
            }
            i = i + 1;
        }
        al.free(handle);
        proof {
            assert(r@ =~= live_values(gs));
        }
        r
    }

    /// The live values, copied out in index order.
    pub fn as_slice(&self) -> (r: Vec<T>) where T: Copy
        requires
            self.spec_all_live(),
        ensures
            r@ == self.values(),
    {
        let n = self.slots.len();
        let mut r: Vec<T> = Vec::new();
        let mut i: usize = 0;
        while i < n
            invariant
                n == self@.len(),
                all_live(self@),
                i <= n,
                r@ =~= self.values().subrange(0, i as int),
            decreases n - i,
        {
            let x = *self.get(i);
            r.push(x);
            i = i + 1;
        }
        proof {
            assert(r@ =~= self.values());
        }
        r
    }

    /// Copy elements in from `from`, overwriting slots from the start;
    /// copies the shorter of `from` and the array, and returns the number of
    /// elements copied.
    pub fn memory_from_slice(&mut self, from: &[T]) -> (r: usize) where T: Copy
        ensures
            r == if from@.len() <= old(self)@.len() {
                from@.len()
            } else {
                old(self)@.len()
            },
            final(self)@.len() == old(self)@.len(),
            final(self).handle == old(self).handle,
            final(self).drop_check == old(self).drop_check,
            forall|i: int|
                0 <= i < final(self)@.len() ==> final(self)@[i] == if i < r {
                    Slot::Live(from@[i])
                } else {
                    old(self)@[i]
                },
    {
        let n = self.slots.len();
        let k = if from.len() <= n {
            from.len()
        } else {
            n
        };
        let mut i: usize = 0;
        while i < k
            invariant
                k <= from@.len(),
                k <= old(self)@.len(),
                n == self@.len(),
                n == old(self)@.len(),
                i <= k,
                self.handle == old(self).handle,
                self.drop_check == old(self).drop_check,
                forall|j: int|
                    0 <= j < n ==> self@[j] == if j < i {
                        Slot::Live(from@[j])
                    } else {
                        old(self)@[j]
                    },
            decreases k - i,
        {
            let v = *vstd::slice::slice_index_get(from, i);
            self.replace_and_forget(i, v);
            i = i + 1;
        }
        k
    }

    /// Fresh array holding a copy of every element of `from`, in order.
    pub fn from_slice_copied(al: &mut Allocator, from: &[T]) -> (r: Self) where T: Copy
        requires
            from@.len() * vstd::layout::size_of::<T>() <= usize::MAX,
        ensures
            r.wf(*final(al)),
            r@ == as_live_slots(from@),
            r.values() == from@,
            r.drop_check,
            alloc_step(*old(al), *final(al), r.handle, (from@.len() * vstd::layout::size_of::<T>()) as nat),
    {
        let mut r = Self::new_uninit(al, from.len());
        let k = r.memory_from_slice(from);
        proof {
            assert(r@ =~= as_live_slots(from@));
            lemma_live_slots_round_trip(r@, from@);
        }
        r
    }

    /// Deep copy: a fresh allocation whose slots mirror this array's,
    /// including which ones are zeroed.
    pub fn clone_mem(&self, al: &mut Allocator) -> (r: Self) where T: Copy
        requires
            self.spec_len_bytes() <= usize::MAX,
        ensures
            r.wf(*final(al)),
            r@ == self@,
            r.drop_check == self.drop_check,
            alloc_step(*old(al), *final(al), r.handle, self.spec_len_bytes()),
    {
        let mut r = Self::new_uninit(al, self.slots.len());
        let n = self.slots.len();
        let mut slots: Vec<Slot<T>> = Vec::new();
        let mut i: usize = 0;
        while i < n
            invariant
                n == self@.len(),
                i <= n,
                slots@ =~= self@.subrange(0, i as int),
            decreases n - i,
        {
            match self.get_slot(i) {
                Slot::Live(v) => slots.push(Slot::Live(v)),
                Slot::Zeroed => slots.push(Slot::Zeroed),
            }
            i = i + 1;
        }
        proof {
            assert(slots@ =~= self@);
        }
        r.slots = slots;
        r.drop_check = self.drop_check;
        r
    }

    /// Copy of the slot at `index`.
    fn get_slot(&self, index: usize) -> (r: Slot<T>) where T: Copy
        requires
            index < self@.len(),
        ensures
            r == self@[index as int],
    {
        match &self.slots[index] {
            Slot::Live(v) => Slot::Live(*v),
            Slot::Zeroed => Slot::Zeroed,
        }
    }

    /// Consume the array and reallocate its backing memory for `size`
    /// elements: the first `min(old, new)` slots carry over, the contents of
    /// any slots beyond the old length are unspecified.
    pub fn resize(self, al: &mut Allocator, size: usize) -> (r: Self)
        requires
            self.wf(*old(al)),
            size * vstd::layout::size_of::<T>() <= usize::MAX,
        ensures
            r.wf(*final(al)),
            r@.len() == size,
            forall|i: int|
                0 <= i < size && i < self@.len() ==> r@[i] == self@[i],
            r.drop_check == self.drop_check,
            realloc_step(
                *old(al),
                *final(al),
                self.handle,
                r.handle,
                (size * vstd::layout::size_of::<T>()) as nat,
            ),
    {
        let HeapArray { handle, slots, drop_check } = self;
        let h = match al.realloc(handle, size * core::mem::size_of::<T>()) {
            Ok(h) => h,
            Err(_) => vstd::pervasive::unreached(),
        };
        let ghost gs = slots@;
        let mut slots = slots;
        if slots.len() > size {
            slots.truncate(size);
        } else {
            let mut i = slots.len();
            while i < size
                invariant
                    i <= size,
                    slots@.len() == i,
                    gs.len() <= i,
                    forall|j: int| 0 <= j < gs.len() ==> slots@[j] == gs[j],
                decreases size - i,
            {
                slots.push(Slot::Zeroed);
                i = i + 1;
            }
        }
        HeapArray { handle: h, slots, drop_check }
    }

    /// Consume the array, moving every element into the front of `out` (which
    /// must be at least as long), then release the backing allocation.
    pub fn into_slice(self, al: &mut Allocator, out: &mut Vec<T>)
        requires
            self.wf(*old(al)),
            self.spec_all_live(),
            old(out)@.len() >= self@.len(),
        ensures
            final(out)@.len() == old(out)@.len(),
            forall|i: int| 0 <= i < self@.len() ==> final(out)@[i] == self.values()[i],
            forall|i: int| self@.len() <= i < old(out)@.len() ==> final(out)@[i] == old(out)@[i],
            free_step(*old(al), *final(al), self.handle),
    {
        let HeapArray { handle, slots, drop_check: _ } = self;
        let ghost gs = slots@;
        let mut slots = slots;
        let mut m = slots.len();
        while m > 0
            invariant
                all_live(gs),
                gs.len() <= old(out)@.len(),
                m <= gs.len(),
                m == slots@.len(),
                slots@ == gs.subrange(0, m as int),
                out@.len() == old(out)@.len(),
                forall|i: int| m <= i < gs.len() ==> out@[i] == live_values(gs)[i],
                forall|i: int| 0 <= i < m ==> out@[i] == old(out)@[i],
                forall|i: int| gs.len() <= i < old(out)@.len() ==> out@[i] == old(out)@[i],
            decreases m,
        {
            proof {
                assert(gs.subrange(0, m as int).drop_last() =~= gs.subrange(0, m - 1));
            }
            m = m - 1;
            let s = match slots.pop() {
                Some(s) => s,
                None => vstd::pervasive::unreached(),
            };
            match s {
                Slot::Live(v) => {
                    out[m] = v;
                },
                Slot::Zeroed => {
                    proof {
                        assert(false);
                    }
                },
            }
        }
        al.free(handle);
    }

    /// Consume the array into its raw parts: handle, slots and policy flag.
    pub fn into_raw_parts(self) -> (r: (Handle, Vec<Slot<T>>, bool))
        ensures
            r.0 == self.handle,
            r.1@ == self@,
            r.2 == self.drop_check,
    {
        let HeapArray { handle, slots, drop_check } = self;
        (handle, slots, drop_check)
    }

    /// Rebuild an array from raw parts; the caller vouches that the handle
    /// covers the slots' byte length, as `wf` demands.
    pub fn from_raw_parts(handle: Handle, slots: Vec<Slot<T>>, drop_check: bool) -> (r: Self)
        ensures
            r.handle == handle,
            r@ == slots@,
            r.drop_check == drop_check,
    {
        HeapArray { handle, slots, drop_check }
    }
}

impl<T: Pod> HeapArray<T> {
    /// Consume the array and reinterpret its backing bytes as elements of
    /// `U`, which must tile the byte length exactly.  The allocation, its
    /// byte image and the policy flag carry over unchanged.
    pub fn reinterpret<U: Pod>(self) -> (r: HeapArray<U>)
        requires
            vstd::layout::size_of::<U>() > 0,
            self.spec_len_bytes() % vstd::layout::size_of::<U>() == 0,
        ensures
            r.handle == self.handle,
            r.drop_check == self.drop_check,
            r@.len() == self.spec_len_bytes() / vstd::layout::size_of::<U>(),
            all_live(r@),
            r.bytes() == self.bytes(),
            r.spec_len_bytes() == self.spec_len_bytes(),
    {
        let bytes = self.memory();
        let slots = decode_slots::<U>(&bytes);
        let HeapArray { handle, slots: _, drop_check } = self;
        let r = HeapArray { handle, slots, drop_check };
        proof {
            let l = self.spec_len_bytes() as int;
            let s = vstd::layout::size_of::<U>() as int;
            vstd::arithmetic::div_mod::lemma_fundamental_div_mod(l, s);
            assert((l / s) * s == l) by (nonlinear_arith)
                requires
                    s > 0 && l == s * (l / s),
            ;
        }
        r
    }

    /// The backing bytes read as elements of `U`, copied out without
    /// consuming the array; `U` must tile the byte length exactly.
    pub fn reinterpret_ref<U: Pod>(&self) -> (r: Vec<U>)
        requires
            vstd::layout::size_of::<U>() > 0,
            self.spec_len_bytes() % vstd::layout::size_of::<U>() == 0,
        ensures
            r@.len() == self.spec_len_bytes() / vstd::layout::size_of::<U>(),
            crate::pod::enc_all(r@) == self.bytes(),
    {
        let bytes = self.memory();
        decode_values::<U>(&bytes)
    }

    /// Whether the two arrays have the same length and the same bytes, slot
    /// by slot; for plain-data elements this is element-wise equality.
    pub fn eq_array(&self, other: &HeapArray<T>) -> (r: bool)
        ensures
            r == (self@.len() == other@.len() && self.bytes() == other.bytes()),
    {
        if self.slots.len() != other.slots.len() {
            proof {
                lemma_slots_bytes_len(self@);
                lemma_slots_bytes_len(other@);
                let s = vstd::layout::size_of::<T>() as int;
                let a = self@.len() as int;
                let b = other@.len() as int;
                if s > 0 {
                    assert(a * s != b * s) by (nonlinear_arith)
                        requires
                            a != b && s > 0,
                    ;
                } else {
                    assert(a * s == 0 && b * s == 0) by (nonlinear_arith)
                        requires
                            s == 0,
                    ;
                }
            }
            return false;
        }
        let a = self.memory();
        let b = other.memory();
        let n = a.len();
        proof {
            lemma_slots_bytes_len(self@);
            lemma_slots_bytes_len(other@);
        }
        let mut i: usize = 0;
        while i < n
            invariant
                n == a@.len(),
                n == b@.len(),
                a@ == self.bytes(),
                b@ == other.bytes(),
                self@.len() == other@.len(),
                i <= n,
                forall|j: int| 0 <= j < i ==> a@[j] == b@[j],
            decreases n - i,
        {
            if a[i] != b[i] {
                return false;
            }
            i = i + 1;
        }
        proof {
            assert(a@ =~= b@);
        }
        true
    }
}

} // verus!
