//! The answer to an admitted client.
use super::config::V2AdmissionListenerError;
use crate::v2::address_pool::AssignedAddresses;
use crate::v2::admission::AdmissionAccepted;
use crate::v2::control::{ControlFrame, ControlMessage, SafeModePolicy};
use vstd::prelude::*;

verus! {

/// What every `SessionAdmit` shares. Addresses are never part of it: they come
/// from the lease.
pub struct SessionAdmitTemplate {
    safe_mode_policy: SafeModePolicy,
}

impl View for SessionAdmitTemplate {
    type V = Seq<u8>;

    closed spec fn view(&self) -> Seq<u8> {
        self.safe_mode_policy@
    }
}

/// An admission's expiry has milliseconds.
pub open spec fn expiry_fits(admitted: AdmissionAccepted) -> bool {
    admitted.parts().1 * 1_000 <= u64::MAX
}

/// A frame is the `SessionAdmit` of an admission and its lease, with the policy
/// that all of them share.
pub open spec fn admits(
    frame: ControlFrame,
    policy: Seq<u8>,
    transaction_id: u64,
    admitted: AdmissionAccepted,
    lease: AssignedAddresses,
) -> bool {
    &&& frame.transaction_id == transaction_id
    &&& frame.message matches ControlMessage::SessionAdmit {
        session_id,
        expires_at_ms,
        policy_epoch,
        assigned_ipv4,
        assigned_ipv4_prefix_len,
        assigned_ipv6_prefix,
        assigned_ipv6_prefix_len,
        safe_mode_policy,
    }
    &&& session_id == admitted.parts().0.parts().0
    &&& expires_at_ms == admitted.parts().1 * 1_000
    &&& policy_epoch == admitted.parts().2
    &&& assigned_ipv4 == lease.ipv4
    &&& assigned_ipv4_prefix_len == lease.ipv4_prefix_len
    &&& assigned_ipv6_prefix == lease.ipv6_prefix
    &&& assigned_ipv6_prefix_len == lease.ipv6_prefix_len
    &&& safe_mode_policy@ == policy
}

impl SessionAdmitTemplate {
    pub fn new(safe_mode_policy: SafeModePolicy) -> (template: Self)
        ensures
            template@ == safe_mode_policy@,
    {
        SessionAdmitTemplate { safe_mode_policy }
    }

    /// The `SessionAdmit` for an admission and its lease. An expiry that has no
    /// milliseconds is `InvalidAdmission`.
    pub fn frame(
        &self,
        transaction_id: u64,
        admitted: AdmissionAccepted,
        lease: &AssignedAddresses,
    ) -> (result: Result<ControlFrame, V2AdmissionListenerError>)
        ensures
            match result {
                Ok(frame) => expiry_fits(admitted) && admits(
                    frame,
                    self@,
                    transaction_id,
                    admitted,
                    *lease,
                ),
                Err(e) => e == V2AdmissionListenerError::InvalidAdmission && !expiry_fits(admitted),
            },
    {
        let expires_at_ms: u64 = match admitted.expires_at_unix_seconds().checked_mul(1_000) {
            Some(millis) => millis,
            None => {
                return Err(V2AdmissionListenerError::InvalidAdmission);
            },
        };
        Ok(
            ControlFrame {
                transaction_id,
                message: ControlMessage::SessionAdmit {
                    session_id: admitted.owner().session_id(),
                    expires_at_ms,
                    policy_epoch: admitted.policy_version(),
                    assigned_ipv4: lease.ipv4,
                    assigned_ipv4_prefix_len: lease.ipv4_prefix_len,
                    assigned_ipv6_prefix: lease.ipv6_prefix,
                    assigned_ipv6_prefix_len: lease.ipv6_prefix_len,
                    safe_mode_policy: self.safe_mode_policy.duplicate(),
                },
            },
        )
    }
}

/// The answer to an admitted client names its session, the expiry of its ticket in
/// milliseconds, the policy's version and contents, and the addresses of its lease;
/// it belongs to the transaction of the hello. Only an expiry that has no
/// milliseconds is not answered.
pub proof fn law_answers_are_of_the_admission(
    template: &SessionAdmitTemplate,
    transaction_id: u64,
    admitted: AdmissionAccepted,
    lease: &AssignedAddresses,
    result: Result<ControlFrame, V2AdmissionListenerError>,
)
    requires
        call_ensures(
            SessionAdmitTemplate::frame,
            (template, transaction_id, admitted, lease),
            result,
        ),
    ensures
        ({
            let (owner, expiry, version) = admitted.parts();
            &&& result is Ok <==> expiry <= 18_446_744_073_709_551
            &&& result matches Err(e) ==> e == V2AdmissionListenerError::InvalidAdmission
            &&& result matches Ok(frame) ==> {
                &&& frame.transaction_id == transaction_id
                &&& frame.message is SessionAdmit
                &&& frame.message->SessionAdmit_session_id == owner.parts().0
                &&& frame.message->expires_at_ms == expiry * 1_000
                &&& frame.message->policy_epoch == version
                &&& frame.message->assigned_ipv4 == lease.ipv4
                &&& frame.message->assigned_ipv4_prefix_len == lease.ipv4_prefix_len
                &&& frame.message->assigned_ipv6_prefix == lease.ipv6_prefix
                &&& frame.message->assigned_ipv6_prefix_len == lease.ipv6_prefix_len
                &&& frame.message->safe_mode_policy@ == template@
            }
        }),
{
}

} // verus!
