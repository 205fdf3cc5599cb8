//! One lane's worth of values in a buffer aligned as a 256-bit register is,
//! held in the `aligned` crate's wrapper.
use vstd::prelude::*;

use aligned::{Aligned, A32};

verus! {

#[verifier::external_type_specification]
#[verifier::external_body]
pub struct ExA32(A32);

#[verifier::external_type_specification]
#[verifier::external_body]
#[verifier::reject_recursive_types(A)]
#[verifier::reject_recursive_types(T)]
pub struct ExAligned<A, T: ?Sized>(Aligned<A, T>);

/// The eight binary32 patterns that an aligned array holds, in order.
pub uninterp spec fn aligned_lanes_32(a: Aligned<A32, [u32; 8]>) -> Seq<u32>;

/// The four binary64 patterns that an aligned array holds, in order.
pub uninterp spec fn aligned_lanes_64(a: Aligned<A32, [u64; 4]>) -> Seq<u64>;

/// Relies on `aligned::Aligned`, which moves the array into its 32-byte
/// aligned wrapper unchanged.
#[verifier::external_body]
pub(crate) fn align_lanes_32(v: [u32; 8]) -> (r: Aligned<A32, [u32; 8]>)
    ensures
        aligned_lanes_32(r) == v@,
{
    Aligned(v)
}

/// Relies on `aligned::Aligned`, which moves the array into its 32-byte
/// aligned wrapper unchanged.
#[verifier::external_body]
pub(crate) fn align_lanes_64(v: [u64; 4]) -> (r: Aligned<A32, [u64; 4]>)
    ensures
        aligned_lanes_64(r) == v@,
{
    Aligned(v)
}

} // verus!
