//! Control messages, as far as admission and path control read and write
//! them.
use super::packet;
use super::packet::{clone_packet, copy_from_slice};
use crate::ids::{DeviceId, SessionId};
use bytes::Bytes;
use vstd::prelude::*;

verus! {

/// Longest gateway name in bytes.
pub const MAX_GATEWAY_NAME_LEN: usize = 253;

/// One network path of a session.
#[derive(Debug, Clone, Copy, PartialEq, Eq, Structural)]
pub struct PathId {
    pub value: u64,
}

/// Policy bytes that are echoed to every admitted client, unread.
pub struct SafeModePolicy {
    encoded: Bytes,
}

impl View for SafeModePolicy {
    type V = Seq<u8>;

    closed spec fn view(&self) -> Seq<u8> {
        packet::contents(self.encoded)
    }
}

impl SafeModePolicy {
    pub fn new(encoded: &[u8]) -> (policy: Self)
        ensures
            policy@ == encoded@,
    {
        SafeModePolicy { encoded: copy_from_slice(encoded) }
    }

    /// The policy once more.
    pub fn duplicate(&self) -> (policy: Self)
        ensures
            policy@ == self@,
    {
        SafeModePolicy { encoded: clone_packet(&self.encoded) }
    }

    pub fn encoded(&self) -> (encoded: &Bytes)
        ensures
            packet::contents(*encoded) == self@,
    {
        &self.encoded
    }
}

/// Why a request is rejected.
#[derive(Debug, Clone, Copy, PartialEq, Eq, Structural)]
pub enum RejectCode {
    InvalidState,
    StaleEpoch,
    UnknownPath,
    InvalidDirection,
}

/// A control message. `Other` stands for every message that neither admission
/// nor path control reads.
pub enum ControlMessage {
    ClientHello { device_id: DeviceId, requested_gateway: String, ticket: String },
    SessionAdmit {
        session_id: SessionId,
        expires_at_ms: u64,
        policy_epoch: u64,
        assigned_ipv4: [u8; 4],
        assigned_ipv4_prefix_len: u8,
        assigned_ipv6_prefix: [u8; 16],
        assigned_ipv6_prefix_len: u8,
        safe_mode_policy: SafeModePolicy,
    },
    PathAttach { session_id: SessionId, path_nonce: u128, path_epoch: u64, key_epoch: u32 },
    PathAttached { session_id: SessionId, path_id: PathId, path_epoch: u64 },
    PathDetach { session_id: SessionId, path_id: PathId, path_epoch: u64 },
    Close { session_id: SessionId },
    Ack,
    Reject { code: RejectCode, reason: String },
    Other,
}

/// A control message and the transaction it belongs to.
pub struct ControlFrame {
    pub transaction_id: u64,
    pub message: ControlMessage,
}

} // verus!
