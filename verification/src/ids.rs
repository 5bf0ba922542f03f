//! Opaque sixteen-byte identifiers.
//!
//! An identifier is held as the number that its bytes spell, so comparing two
//! of them compares the byte strings in order.
use crate::encoding;
use crate::encoding::{be_bytes_16, be_u128};
use vstd::prelude::*;

verus! {

/// One client session.
#[derive(Debug, Clone, Copy, PartialEq, Eq, Structural)]
pub struct SessionId {
    pub key: u128,
}

/// One enrolled device.
#[derive(Debug, Clone, Copy, PartialEq, Eq, Structural)]
pub struct DeviceId {
    pub key: u128,
}

/// One admission ticket.
#[derive(Debug, Clone, Copy, PartialEq, Eq, Structural)]
pub struct TicketId {
    pub key: u128,
}

/// The organization that a device belongs to.
#[derive(Debug, Clone, Copy, PartialEq, Eq, Structural)]
pub struct OrganizationId {
    pub key: u128,
}

impl SessionId {
    pub fn from_bytes(bytes: [u8; 16]) -> (id: Self)
        ensures
            id.key == encoding::be(bytes@),
    {
        SessionId { key: be_u128(bytes) }
    }

    pub fn as_bytes(&self) -> (bytes: [u8; 16])
        ensures
            bytes@ == encoding::to_be(self.key as nat, 16),
    {
        be_bytes_16(self.key)
    }
}

impl DeviceId {
    pub fn from_bytes(bytes: [u8; 16]) -> (id: Self)
        ensures
            id.key == encoding::be(bytes@),
    {
        DeviceId { key: be_u128(bytes) }
    }

    pub fn as_bytes(&self) -> (bytes: [u8; 16])
        ensures
            bytes@ == encoding::to_be(self.key as nat, 16),
    {
        be_bytes_16(self.key)
    }
}

impl TicketId {
    pub fn from_bytes(bytes: [u8; 16]) -> (id: Self)
        ensures
            id.key == encoding::be(bytes@),
    {
        TicketId { key: be_u128(bytes) }
    }

    pub fn as_bytes(&self) -> (bytes: [u8; 16])
        ensures
            bytes@ == encoding::to_be(self.key as nat, 16),
    {
        be_bytes_16(self.key)
    }
}

impl OrganizationId {
    pub fn from_bytes(bytes: [u8; 16]) -> (id: Self)
        ensures
            id.key == encoding::be(bytes@),
    {
        OrganizationId { key: be_u128(bytes) }
    }

    pub fn as_bytes(&self) -> (bytes: [u8; 16])
        ensures
            bytes@ == encoding::to_be(self.key as nat, 16),
    {
        be_bytes_16(self.key)
    }
}

/// An identifier keeps its bytes: what `as_bytes` spells, `from_bytes` reads
/// back as the same identifier, and the bytes it was made of come out again.
pub proof fn law_identifier_round_trip(key: u128, bytes: Seq<u8>)
    requires
        bytes.len() == 16,
    ensures
        encoding::be(encoding::to_be(key as nat, 16)) == key,
        encoding::to_be(encoding::be(bytes), 16) == bytes,
{
    encoding::lemma_radix_values();
    encoding::lemma_be_of_to_be(key as nat, 16);
    encoding::lemma_to_be_of_be(bytes);
}

} // verus!
