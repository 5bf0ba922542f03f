//! Why a configuration is refused, and the policy that comes before any file.
use super::super::replay;
use super::super::replay::{RedemptionScope, RedemptionScopeError};
use crate::text::same_text;
use vstd::prelude::*;

verus! {

#[derive(Debug, Clone, Copy, PartialEq, Eq, Structural)]
pub enum V2GatewayConfigError {
    /// The configuration cannot be read.
    Io,
    /// The configuration is malformed.
    Malformed,
    /// The configuration is invalid.
    InvalidConfiguration,
    /// A filesystem reference is invalid.
    FilesystemRef,
    /// A shared secret is set in the environment.
    SharedSecretPresent,
    /// The lease mode is not self-hosted.
    LeaseModeRejected,
    /// The redemption scope spans gateways.
    RedemptionScopeRejected,
    /// The redemption scope is invalid.
    RedemptionScopeInvalid,
}

/// `self-hosted`, the only lease mode there is.
pub open spec fn lease_mode_verdict(mode: Seq<char>) -> Result<(), V2GatewayConfigError> {
    if mode == "self-hosted"@ {
        Ok(())
    } else {
        Err(V2GatewayConfigError::LeaseModeRejected)
    }
}

pub fn check_lease_mode(mode: &str) -> (result: Result<(), V2GatewayConfigError>)
    ensures
        result == lease_mode_verdict(mode@),
{
    if same_text(mode, "self-hosted") {
        Ok(())
    } else {
        Err(V2GatewayConfigError::LeaseModeRejected)
    }
}

/// Only a single gateway may redeem tickets.
pub open spec fn scope_verdict(scope: Seq<char>) -> Result<(), V2GatewayConfigError> {
    if scope == "single-gateway"@ {
        Ok(())
    } else if replay::names_many_gateways(scope) {
        Err(V2GatewayConfigError::RedemptionScopeRejected)
    } else {
        Err(V2GatewayConfigError::RedemptionScopeInvalid)
    }
}

pub fn check_redemption_scope(scope: &str) -> (result: Result<(), V2GatewayConfigError>)
    ensures
        result == scope_verdict(scope@),
{
    match RedemptionScope::parse(scope) {
        Ok(RedemptionScope::SingleGateway) => Ok(()),
        Err(RedemptionScopeError::MultiGatewayRejected) => Err(
            V2GatewayConfigError::RedemptionScopeRejected,
        ),
        Err(RedemptionScopeError::InvalidScope) => Err(
            V2GatewayConfigError::RedemptionScopeInvalid,
        ),
    }
}

} // verus!
