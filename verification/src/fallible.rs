//! Growing vectors without aborting when memory runs out.
//!
//! The vectors of the parser are grown through the `fallible_collections` crate, so that a
//! size read from the input can at worst make a parse fail.

use vstd::prelude::*;

verus! {

/// Calls `FallibleVec::try_with_capacity` of `fallible_collections`: a new empty vector
/// with room for `capacity` items, or the failed reservation.
#[verifier::external_body]
pub(crate) fn try_with_capacity<T>(capacity: usize) -> (r: Result<
    Vec<T>,
    fallible_collections::TryReserveError,
>)
    ensures
        match r {
            Ok(v) => v@ == Seq::<T>::empty(),
            Err(_) => true,
        },
{
    fallible_collections::FallibleVec::try_with_capacity(capacity)
}

/// Calls `FallibleVec::try_push` of `fallible_collections`: the item is appended, or the
/// reservation failed and the vector is as it was.
#[verifier::external_body]
pub(crate) fn try_push<T>(v: &mut Vec<T>, elem: T) -> (r: Result<
    (),
    fallible_collections::TryReserveError,
>)
    ensures
        match r {
            Ok(_) => final(v)@ == old(v)@.push(elem),
            Err(_) => final(v)@ == old(v)@,
        },
{
    fallible_collections::FallibleVec::try_push(v, elem)
}

/// Calls `FallibleVec::try_extend_from_slice` of `fallible_collections`: the bytes are
/// appended, or the reservation failed and the vector is as it was.
#[verifier::external_body]
pub(crate) fn try_extend_from_slice(v: &mut Vec<u8>, other: &[u8]) -> (r: Result<
    (),
    fallible_collections::TryReserveError,
>)
    ensures
        match r {
            Ok(_) => final(v)@ == old(v)@ + other@,
            Err(_) => final(v)@ == old(v)@,
        },
{
    fallible_collections::FallibleVec::try_extend_from_slice(v, other)
}

/// Calls `FallibleVec::try_append` of `fallible_collections`: the items of `other` are
/// moved to the end of `v`, or the reservation failed and both vectors are as they were.
#[verifier::external_body]
pub(crate) fn try_append<T>(v: &mut Vec<T>, other: &mut Vec<T>) -> (r: Result<
    (),
    fallible_collections::TryReserveError,
>)
    ensures
        match r {
            Ok(_) => final(v)@ == old(v)@ + old(other)@ && final(other)@ == Seq::<T>::empty(),
            Err(_) => final(v)@ == old(v)@ && final(other)@ == old(other)@,
        },
{
    fallible_collections::FallibleVec::try_append(v, other)
}

/// Calls `TryClone::try_clone` of `fallible_collections` on a byte vector: a copy of the
/// bytes, or the failed reservation.
#[verifier::external_body]
pub(crate) fn try_clone_bytes(v: &Vec<u8>) -> (r: Result<Vec<u8>, fallible_collections::TryReserveError>)
    ensures
        match r {
            Ok(copy) => copy@ == v@,
            Err(_) => true,
        },
{
    fallible_collections::TryClone::try_clone(v)
}

} // verus!
