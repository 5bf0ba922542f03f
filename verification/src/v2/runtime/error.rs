//! Why the runtime does not start.
use super::super::config::V2GatewayConfigError;
use vstd::prelude::*;

verus! {

#[derive(Debug, Clone, Copy, PartialEq, Eq, Structural)]
pub enum V2GatewayRuntimeError {
    InvalidConfiguration,
    FilesystemRef,
    SharedSecretPresent,
    LeaseModeRejected,
    RedemptionScopeRejected,
    RedemptionScopeInvalid,
    Io,
    Malformed,
    /// Admission state is unavailable.
    Unavailable,
    /// The redemption journal is unavailable.
    ReplayStore,
    /// The listener is unavailable.
    Listener,
}

/// A configuration error as a runtime error.
pub open spec fn runtime_error(error: V2GatewayConfigError) -> V2GatewayRuntimeError {
    match error {
        V2GatewayConfigError::Io => V2GatewayRuntimeError::Io,
        V2GatewayConfigError::Malformed => V2GatewayRuntimeError::Malformed,
        V2GatewayConfigError::InvalidConfiguration => V2GatewayRuntimeError::InvalidConfiguration,
        V2GatewayConfigError::FilesystemRef => V2GatewayRuntimeError::FilesystemRef,
        V2GatewayConfigError::SharedSecretPresent => V2GatewayRuntimeError::SharedSecretPresent,
        V2GatewayConfigError::LeaseModeRejected => V2GatewayRuntimeError::LeaseModeRejected,
        V2GatewayConfigError::RedemptionScopeRejected => {
            V2GatewayRuntimeError::RedemptionScopeRejected
        },
        V2GatewayConfigError::RedemptionScopeInvalid => {
            V2GatewayRuntimeError::RedemptionScopeInvalid
        },
    }
}

impl From<V2GatewayConfigError> for V2GatewayRuntimeError {
    fn from(error: V2GatewayConfigError) -> (converted: Self) {
        match error {
            V2GatewayConfigError::Io => V2GatewayRuntimeError::Io,
            V2GatewayConfigError::Malformed => V2GatewayRuntimeError::Malformed,
            V2GatewayConfigError::InvalidConfiguration => {
                V2GatewayRuntimeError::InvalidConfiguration
            },
            V2GatewayConfigError::FilesystemRef => V2GatewayRuntimeError::FilesystemRef,
            V2GatewayConfigError::SharedSecretPresent => V2GatewayRuntimeError::SharedSecretPresent,
            V2GatewayConfigError::LeaseModeRejected => V2GatewayRuntimeError::LeaseModeRejected,
            V2GatewayConfigError::RedemptionScopeRejected => {
                V2GatewayRuntimeError::RedemptionScopeRejected
            },
            V2GatewayConfigError::RedemptionScopeInvalid => {
                V2GatewayRuntimeError::RedemptionScopeInvalid
            },
        }
    }
}

impl vstd::std_specs::convert::FromSpecImpl<V2GatewayConfigError> for V2GatewayRuntimeError {
    open spec fn obeys_from_spec() -> bool {
        true
    }

    open spec fn from_spec(error: V2GatewayConfigError) -> Self {
        runtime_error(error)
    }
}

/// A runtime says of a configuration exactly what its validation said.
pub proof fn law_configuration_errors_are_kept(
    a: V2GatewayConfigError,
    b: V2GatewayConfigError,
)
    ensures
        runtime_error(a) == runtime_error(b) ==> a == b,
        a is Io <==> runtime_error(a) is Io,
        a is Malformed <==> runtime_error(a) is Malformed,
        a is InvalidConfiguration <==> runtime_error(a) is InvalidConfiguration,
        a is FilesystemRef <==> runtime_error(a) is FilesystemRef,
        a is SharedSecretPresent <==> runtime_error(a) is SharedSecretPresent,
        a is LeaseModeRejected <==> runtime_error(a) is LeaseModeRejected,
        a is RedemptionScopeRejected <==> runtime_error(a) is RedemptionScopeRejected,
        a is RedemptionScopeInvalid <==> runtime_error(a) is RedemptionScopeInvalid,
{
}

} // verus!
