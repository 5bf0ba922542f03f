//! Packets as reference-counted byte strings.
use bytes::Bytes;
use vstd::prelude::*;

verus! {

/// `bytes::Bytes`, a cheaply cloneable view of a byte string.
#[verifier::external_type_specification]
#[verifier::external_body]
pub struct ExBytes(bytes::Bytes);

/// The byte string that a `Bytes` holds.
pub uninterp spec fn contents(packet: bytes::Bytes) -> Seq<u8>;

/// Calls `<Bytes as AsRef<[u8]>>::as_ref`: the slice is the byte string that
/// the value holds.
#[verifier::external_body]
pub(crate) fn as_slice(packet: &Bytes) -> (slice: &[u8])
    ensures
        slice@ == contents(*packet),
{
    packet.as_ref()
}

/// Calls `<Bytes as Clone>::clone`: the clone holds the same byte string.
#[verifier::external_body]
pub(crate) fn clone_packet(packet: &Bytes) -> (copy: Bytes)
    ensures
        contents(copy) == contents(*packet),
{
    packet.clone()
}

/// Calls `Bytes::copy_from_slice`: the value holds a copy of the slice.
#[verifier::external_body]
pub(crate) fn copy_from_slice(slice: &[u8]) -> (packet: Bytes)
    ensures
        contents(packet) == slice@,
{
    Bytes::copy_from_slice(slice)
}

} // verus!
