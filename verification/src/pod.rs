//! Plain-data element types: each has a byte image of exactly its size, and
//! can be rebuilt from any byte block of that size.  Byte-level array
//! operations (byte views, imports, reinterpretation) work through this trait.

use vstd::prelude::*;

verus! {

broadcast use vstd::layout::layout_of_primitives;

/// A plain-data type: `enc` is its byte image, of exactly `size_of` bytes,
/// and any byte block of that size decodes to a value with that image.
pub trait Pod: Copy + Sized {
    /// The byte image of this value.
    spec fn enc(self) -> Seq<u8>;

    /// The byte image has exactly the type's size.
    proof fn lemma_enc_len(self)
        ensures
            self.enc().len() == vstd::layout::size_of::<Self>(),
    ;

    /// The byte image, as bytes.
    fn to_bytes(self) -> (r: Vec<u8>)
        ensures
            r@ == self.enc(),
    ;

    /// The value whose byte image is `b`.
    fn of_bytes(b: &[u8]) -> (r: Self)
        requires
            b@.len() == vstd::layout::size_of::<Self>(),
        ensures
            r.enc() == b@,
    ;
}

impl Pod for u8 {
    open spec fn enc(self) -> Seq<u8> {
        seq![self]
    }

    proof fn lemma_enc_len(self) {
    }

    fn to_bytes(self) -> (r: Vec<u8>) {
        let mut r: Vec<u8> = Vec::new();
        r.push(self);
        proof {
            assert(r@ =~= self.enc());
        }
        r
    }

    fn of_bytes(b: &[u8]) -> (r: Self) {
        let r = b[0];
        proof {
            assert(r.enc() =~= b@);
        }
        r
    }
}

impl Pod for u16 {
    open spec fn enc(self) -> Seq<u8> {
        vstd::bytes::spec_u16_to_le_bytes(self)
    }

    proof fn lemma_enc_len(self) {
        vstd::bytes::lemma_auto_spec_u16_to_from_le_bytes();
    }

    fn to_bytes(self) -> (r: Vec<u8>) {
        vstd::bytes::u16_to_le_bytes(self)
    }

    fn of_bytes(b: &[u8]) -> (r: Self) {
        proof {
            vstd::bytes::lemma_auto_spec_u16_to_from_le_bytes();
        }
        vstd::bytes::u16_from_le_bytes(b)
    }
}

impl Pod for u32 {
    open spec fn enc(self) -> Seq<u8> {
        vstd::bytes::spec_u32_to_le_bytes(self)
    }

    proof fn lemma_enc_len(self) {
        vstd::bytes::lemma_auto_spec_u32_to_from_le_bytes();
    }

    fn to_bytes(self) -> (r: Vec<u8>) {
        vstd::bytes::u32_to_le_bytes(self)
    }

    fn of_bytes(b: &[u8]) -> (r: Self) {
        proof {
            vstd::bytes::lemma_auto_spec_u32_to_from_le_bytes();
        }
        vstd::bytes::u32_from_le_bytes(b)
    }
}

impl Pod for u64 {
    open spec fn enc(self) -> Seq<u8> {
        vstd::bytes::spec_u64_to_le_bytes(self)
    }

    proof fn lemma_enc_len(self) {
        vstd::bytes::lemma_auto_spec_u64_to_from_le_bytes();
    }

    fn to_bytes(self) -> (r: Vec<u8>) {
        vstd::bytes::u64_to_le_bytes(self)
    }

    fn of_bytes(b: &[u8]) -> (r: Self) {
        proof {
            vstd::bytes::lemma_auto_spec_u64_to_from_le_bytes();
        }
        vstd::bytes::u64_from_le_bytes(b)
    }
}

/// Two's-complement: an `i32` shares its byte image with the `u32` of the
/// same bit pattern.
impl Pod for i32 {
    open spec fn enc(self) -> Seq<u8> {
        vstd::bytes::spec_u32_to_le_bytes(self as u32)
    }

    proof fn lemma_enc_len(self) {
        vstd::bytes::lemma_auto_spec_u32_to_from_le_bytes();
    }

    fn to_bytes(self) -> (r: Vec<u8>) {
        vstd::bytes::u32_to_le_bytes(self as u32)
    }

    fn of_bytes(b: &[u8]) -> (r: Self) {
        proof {
            vstd::bytes::lemma_auto_spec_u32_to_from_le_bytes();
        }
        let w = vstd::bytes::u32_from_le_bytes(b);
        let r = #[verifier::truncate] (w as i32);
        proof {
            assert((w as i32) as u32 == w) by (bit_vector);
        }
        r
    }
}

/// Concatenation of the byte images of a value sequence, in order.
pub open spec fn enc_all<T: Pod>(s: Seq<T>) -> Seq<u8>
    decreases s.len(),
{
    if s.len() == 0 {
        Seq::empty()
    } else {
        enc_all(s.drop_last()) + s.last().enc()
    }
}

pub proof fn lemma_enc_all_push<T: Pod>(s: Seq<T>, v: T)
    ensures
        enc_all(s.push(v)) == enc_all(s) + v.enc(),
{
    assert(s.push(v).drop_last() =~= s);
}

pub proof fn lemma_enc_all_len<T: Pod>(s: Seq<T>)
    ensures
        enc_all(s).len() == s.len() * vstd::layout::size_of::<T>(),
    decreases s.len(),
{
    if s.len() == 0 {
    } else {
        lemma_enc_all_len(s.drop_last());
        s.last().lemma_enc_len();
        assert(s.len() * vstd::layout::size_of::<T>() == (s.len() - 1) * vstd::layout::size_of::<
            T,
        >() + vstd::layout::size_of::<T>()) by (nonlinear_arith);
    }
}

} // verus!
