//! The bounded collections of the `heapless` crate that the library holds,
//! and the calls it makes on them.

use core::str::FromStr;

use vstd::prelude::*;
use vstd::string::StringSliceAdditionalSpecFns;

use crate::models::coil::MAX_COILS_PER_PDU;

verus! {

#[verifier::external_type_specification]
#[verifier::external_body]
#[verifier::reject_recursive_types(T)]
pub struct ExHeaplessVec<T, const N: usize>(heapless::Vec<T, N>);

#[verifier::external_type_specification]
#[verifier::external_body]
pub struct ExHeaplessString<const N: usize>(heapless::String<N>);

/// The bytes held by a received-frame buffer.
pub uninterp spec fn frame_bytes(v: heapless::Vec<u8, MAX_FRAME_LEN>) -> Seq<u8>;

/// Largest frame a transport hands over.
pub const MAX_FRAME_LEN: usize = 260;

/// Calls `heapless::Vec::as_slice`: the slice holds the buffer's bytes,
/// never more than its capacity of 260.
#[verifier::external_body]
pub(crate) fn frame_as_slice(v: &heapless::Vec<u8, MAX_FRAME_LEN>) -> (r: &[u8])
    ensures
        r@ == frame_bytes(*v),
        r@.len() <= MAX_FRAME_LEN,
{
    v.as_slice()
}

/// Calls `heapless::Vec::new` on a frame buffer: it holds no bytes.
#[verifier::external_body]
pub(crate) fn frame_new() -> (r: heapless::Vec<u8, MAX_FRAME_LEN>)
    ensures
        frame_bytes(r) == Seq::<u8>::empty(),
{
    heapless::Vec::new()
}

/// Calls `heapless::Vec::clear` on a frame buffer: it then holds no bytes.
#[verifier::external_body]
pub(crate) fn frame_clear(v: &mut heapless::Vec<u8, MAX_FRAME_LEN>)
    ensures
        frame_bytes(*final(v)) == Seq::<u8>::empty(),
{
    v.clear()
}

/// Calls `heapless::Vec::extend_from_slice` on a frame buffer: when the
/// bytes fit in its capacity of 260 they are appended and `Ok` returned;
/// otherwise nothing changes and `Err` is returned.
#[verifier::external_body]
pub(crate) fn frame_extend(v: &mut heapless::Vec<u8, MAX_FRAME_LEN>, other: &[u8]) -> (r: Result<(), ()>)
    ensures
        frame_bytes(*old(v)).len() + other@.len() <= MAX_FRAME_LEN ==> (r is Ok && frame_bytes(*final(v)) == frame_bytes(*old(v)) + other@),
        frame_bytes(*old(v)).len() + other@.len() > MAX_FRAME_LEN ==> (r is Err && frame_bytes(*final(v)) == frame_bytes(*old(v))),
{
    v.extend_from_slice(other)
}

/// Longest host text, in UTF-8 bytes, that a TCP configuration holds.
pub const MAX_HOST_LEN: usize = 16;

/// The UTF-8 bytes held by a bounded host string.
pub uninterp spec fn host_bytes(s: heapless::String<MAX_HOST_LEN>) -> Seq<u8>;

/// Calls `heapless::String::<16>::from_str`: it succeeds exactly when the
/// UTF-8 encoding of `host` fits in 16 bytes, and the string then holds
/// that encoding.
#[verifier::external_body]
pub(crate) fn host_from_str(host: &str) -> (r: Option<heapless::String<MAX_HOST_LEN>>)
    ensures
        r is Some <==> host.spec_bytes().len() <= MAX_HOST_LEN,
        r matches Some(s) ==> host_bytes(s) == host.spec_bytes(),
{
    heapless::String::<MAX_HOST_LEN>::from_str(host).ok()
}

/// Calls `heapless::String::<16>::new`: the new string holds no bytes.
#[verifier::external_body]
pub(crate) fn host_empty() -> (r: heapless::String<MAX_HOST_LEN>)
    ensures
        host_bytes(r) == Seq::<u8>::empty(),
{
    heapless::String::new()
}

/// The coil states held by a bounded vector of capacity 2000, in order.
pub uninterp spec fn coil_bits(v: heapless::Vec<bool, MAX_COILS_PER_PDU>) -> Seq<bool>;

/// Calls `heapless::Vec::new`: the new vector holds nothing.
#[verifier::external_body]
pub(crate) fn coil_bits_new() -> (r: heapless::Vec<bool, MAX_COILS_PER_PDU>)
    ensures
        coil_bits(r) == Seq::<bool>::empty(),
{
    heapless::Vec::new()
}

/// Calls `heapless::Vec::push`: below capacity the item is appended and `Ok`
/// returned; at capacity the vector is unchanged and the item handed back.
#[verifier::external_body]
pub(crate) fn coil_bits_push(v: &mut heapless::Vec<bool, MAX_COILS_PER_PDU>, item: bool) -> (r: Result<(), bool>)
    ensures
        coil_bits(*old(v)).len() < MAX_COILS_PER_PDU ==> (r is Ok && coil_bits(*final(v)) == coil_bits(*old(v)).push(item)),
        coil_bits(*old(v)).len() >= MAX_COILS_PER_PDU ==> (r == Err::<(), bool>(item) && coil_bits(*final(v)) == coil_bits(*old(v))),
{
    v.push(item)
}


} // verus!
