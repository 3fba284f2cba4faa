//! Type punning on single plain-data values: read a value of one type as the
//! bit pattern of a (no larger) other type.

use vstd::prelude::*;

use crate::pod::Pod;

verus! {

/// Reinterpret `input` as a `U`: the result's byte image is the leading
/// `size_of::<U>()` bytes of `input`'s, so `U` must be no larger than `T`.
pub fn bytes<T: Pod, U: Pod>(input: T) -> (r: U)
    requires
        vstd::layout::size_of::<U>() <= vstd::layout::size_of::<T>(),
    ensures
        r.enc() == input.enc().subrange(0, vstd::layout::size_of::<U>() as int),
{
    let b = input.to_bytes();
    proof {
        input.lemma_enc_len();
    }
    let su = core::mem::size_of::<U>();
    let prefix = vstd::slice::slice_subrange(b.as_slice(), 0, su);
    U::of_bytes(prefix)
}

/// Reinterpreting a buffer of `n` elements of one size as elements of a size
/// that divides the byte length, and back, returns to the original element
/// count, and the byte length survives both steps.
pub proof fn lemma_reinterpret_round_trip(n: nat, st: nat, su: nat)
    requires
        st > 0,
        su > 0,
        (n * st) % su == 0,
    ensures
        ((n * st) / su) * su == n * st,
        (n * st) % st == 0,
        (n * st) / st == n,
{
    let b = (n * st) as int;
    vstd::arithmetic::div_mod::lemma_fundamental_div_mod(b, su as int);
    assert((b / su as int) * su as int == b) by (nonlinear_arith)
        requires
            su > 0 && b == su * (b / su as int),
    ;
    assert(b % st as int == 0 && b / st as int == n) by (nonlinear_arith)
        requires
            st > 0 && b == n * st,
    ;
}

} // verus!
