//! Leases, as they are handed out and as they are persisted.
use crate::encoding;
use crate::ids::{DeviceId, SessionId};
use vstd::prelude::*;

verus! {

/// Durable lease state.
#[derive(Debug, Clone, Copy, PartialEq, Eq, Structural)]
pub enum LeaseState {
    /// Reserved, not yet committed. Expires after the pending TTL.
    Reserved,
    /// Committed. Expires after the lease TTL unless renewed.
    Active,
    /// Durable delete failed; the addresses are quarantined as nonreusable
    /// until the store delete succeeds. Retains the original expiry.
    ReleasePending,
}

/// Addresses handed to a session.
#[derive(Debug, Clone, Copy, PartialEq, Eq)]
pub struct AssignedAddresses {
    pub ipv4: [u8; 4],
    pub ipv4_prefix_len: u8,
    pub ipv6_prefix: [u8; 16],
    pub ipv6_prefix_len: u8,
}

impl AssignedAddresses {
    /// The IPv4 host as a number.
    pub open spec fn v4(self) -> nat {
        encoding::be(self.ipv4@)
    }

    /// The IPv6 prefix as a number.
    pub open spec fn v6(self) -> nat {
        encoding::be(self.ipv6_prefix@)
    }
}

/// Durable record of one address pair, its lifecycle state and its wall-clock
/// expiry (Unix millis, never monotonic).
#[derive(Debug, Clone, Copy, PartialEq, Eq)]
pub struct PersistedLease {
    pub session_id: SessionId,
    pub device_id: DeviceId,
    pub ipv4: [u8; 4],
    pub ipv4_prefix_len: u8,
    pub ipv6_prefix: [u8; 16],
    pub ipv6_prefix_len: u8,
    pub state: LeaseState,
    pub expires_at_ms: u64,
}

impl PersistedLease {
    /// The address pair of the record.
    pub open spec fn pair(self) -> AssignedAddresses {
        AssignedAddresses {
            ipv4: self.ipv4,
            ipv4_prefix_len: self.ipv4_prefix_len,
            ipv6_prefix: self.ipv6_prefix,
            ipv6_prefix_len: self.ipv6_prefix_len,
        }
    }

    /// A record of one lease.
    pub open spec fn of(
        session: u128,
        device: DeviceId,
        pair: AssignedAddresses,
        state: LeaseState,
        expires_at_ms: u64,
    ) -> PersistedLease {
        PersistedLease {
            session_id: SessionId { key: session },
            device_id: device,
            ipv4: pair.ipv4,
            ipv4_prefix_len: pair.ipv4_prefix_len,
            ipv6_prefix: pair.ipv6_prefix,
            ipv6_prefix_len: pair.ipv6_prefix_len,
            state,
            expires_at_ms,
        }
    }

    pub fn addresses(&self) -> (pair: AssignedAddresses)
        ensures
            pair == self.pair(),
    {
        AssignedAddresses {
            ipv4: self.ipv4,
            ipv4_prefix_len: self.ipv4_prefix_len,
            ipv6_prefix: self.ipv6_prefix,
            ipv6_prefix_len: self.ipv6_prefix_len,
        }
    }

    pub fn record(
        session_id: SessionId,
        device_id: DeviceId,
        pair: AssignedAddresses,
        state: LeaseState,
        expires_at_ms: u64,
    ) -> (lease: Self)
        ensures
            lease == PersistedLease::of(session_id.key, device_id, pair, state, expires_at_ms),
    {
        PersistedLease {
            session_id,
            device_id,
            ipv4: pair.ipv4,
            ipv4_prefix_len: pair.ipv4_prefix_len,
            ipv6_prefix: pair.ipv6_prefix,
            ipv6_prefix_len: pair.ipv6_prefix_len,
            state,
            expires_at_ms,
        }
    }
}

/// A record holds what it was made of, and its addresses are the pair it was made
/// with.
pub proof fn law_records_hold_their_lease(
    session_id: SessionId,
    device_id: DeviceId,
    pair: AssignedAddresses,
    state: LeaseState,
    expires_at_ms: u64,
    lease: PersistedLease,
    addresses: AssignedAddresses,
)
    requires
        call_ensures(
            PersistedLease::record,
            (session_id, device_id, pair, state, expires_at_ms),
            lease,
        ),
        call_ensures(PersistedLease::addresses, (&lease,), addresses),
    ensures
        lease.session_id == session_id,
        lease.device_id == device_id,
        lease.ipv4 == pair.ipv4,
        lease.ipv4_prefix_len == pair.ipv4_prefix_len,
        lease.ipv6_prefix == pair.ipv6_prefix,
        lease.ipv6_prefix_len == pair.ipv6_prefix_len,
        lease.state == state,
        lease.expires_at_ms == expires_at_ms,
        addresses == pair,
{
}

} // verus!
