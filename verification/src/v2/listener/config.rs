//! Listener bounds, times and errors.
use crate::time::Span;
use crate::v2::admission::AdmissionTime;
use crate::v2::persistence;
use vstd::prelude::*;

verus! {

#[derive(Debug, Clone, Copy, PartialEq, Eq, Structural)]
pub enum V2AdmissionListenerError {
    InvalidConfiguration,
    TlsConfiguration,
    Endpoint,
    EndpointClosed,
    Limited,
    Handshake,
    HandshakeDeadline,
    PeerIdentity,
    ControlStream,
    ControlStreamDeadline,
    InvalidControl,
    AdmissionRejected,
    InvalidAdmission,
    ResponseWrite,
    ConnectionClosed,
    ConnectionCleanup,
    AddressPool,
}

/// How long one control read or write may take.
#[derive(Debug, Clone, Copy, PartialEq, Eq, Structural)]
pub struct ControlDeadlines {
    pub read: Span,
    pub write: Span,
}

#[derive(Debug, Clone, Copy, PartialEq, Eq, Structural)]
pub struct V2AdmissionListenerConfig {
    pub handshake_timeout: Span,
    pub control_stream_timeout: Span,
    pub control_deadlines: ControlDeadlines,
    /// Longest control frame in bytes.
    pub control_frame_limit: usize,
}

impl V2AdmissionListenerConfig {
    pub open spec fn wf(self) -> bool {
        &&& self.handshake_timeout.wf()
        &&& self.control_stream_timeout.wf()
        &&& self.control_deadlines.read.wf()
        &&& self.control_deadlines.write.wf()
    }

    /// No bound is zero.
    pub open spec fn valid(self) -> bool {
        &&& self.handshake_timeout.total_nanos() != 0
        &&& self.control_stream_timeout.total_nanos() != 0
        &&& self.control_deadlines.read.total_nanos() != 0
        &&& self.control_deadlines.write.total_nanos() != 0
        &&& self.control_frame_limit != 0
    }

    /// Five seconds for the handshake and for the control stream to open.
    pub fn with_control(control_deadlines: ControlDeadlines, control_frame_limit: usize) -> (config:
        Self)
        requires
            control_deadlines.read.wf(),
            control_deadlines.write.wf(),
        ensures
            config.wf(),
            config.handshake_timeout.total_nanos() == 5_000_000_000,
            config.control_stream_timeout.total_nanos() == 5_000_000_000,
            config.control_deadlines == control_deadlines,
            config.control_frame_limit == control_frame_limit,
    {
        V2AdmissionListenerConfig {
            handshake_timeout: Span::from_secs(5),
            control_stream_timeout: Span::from_secs(5),
            control_deadlines,
            control_frame_limit,
        }
    }

    /// What a listener may be bound with.
    pub fn check(&self) -> (result: Result<(), V2AdmissionListenerError>)
        requires
            self.wf(),
        ensures
            result == if self.valid() {
                Ok::<(), V2AdmissionListenerError>(())
            } else {
                Err(V2AdmissionListenerError::InvalidConfiguration)
            },
    {
        if self.handshake_timeout.is_zero() || self.control_stream_timeout.is_zero()
            || self.control_deadlines.read.is_zero() || self.control_deadlines.write.is_zero()
            || self.control_frame_limit == 0 {
            return Err(V2AdmissionListenerError::InvalidConfiguration);
        }
        Ok(())
    }
}

/// The time after a while, saturating: a ticket is verified against when it is
/// looked at, not against when its connection came in.
pub fn advance_admission_time(base: AdmissionTime, elapsed: Span) -> (time: AdmissionTime)
    requires
        elapsed.wf(),
    ensures
        time.unix_seconds == persistence::saturated(base.unix_seconds + elapsed.seconds()),
        time.monotonic_millis == persistence::saturated(base.monotonic_millis + elapsed.millis()),
{
    let millis: u128 = elapsed.as_millis();
    let bounded: u64 = if millis > u64::MAX as u128 {
        u64::MAX
    } else {
        millis as u64
    };
    AdmissionTime {
        unix_seconds: base.unix_seconds.saturating_add(elapsed.as_secs()),
        monotonic_millis: base.monotonic_millis.saturating_add(bounded),
    }
}

/// A listener is bound where none of its four timeouts and its frame limit is zero.
pub proof fn law_listener_configurations(
    config: &V2AdmissionListenerConfig,
    result: Result<(), V2AdmissionListenerError>,
)
    requires
        config.wf(),
        call_ensures(V2AdmissionListenerConfig::check, (config,), result),
    ensures
        result is Ok <==> {
            &&& config.handshake_timeout.total_nanos() > 0
            &&& config.control_stream_timeout.total_nanos() > 0
            &&& config.control_deadlines.read.total_nanos() > 0
            &&& config.control_deadlines.write.total_nanos() > 0
            &&& config.control_frame_limit > 0
        },
        result matches Err(e) ==> e == V2AdmissionListenerError::InvalidConfiguration,
{
}

/// Both clocks go on by what has passed: the one by its whole seconds, the other by
/// its milliseconds, each to its end and no further.
pub proof fn law_time_goes_on(base: AdmissionTime, elapsed: Span, time: AdmissionTime)
    requires
        elapsed.wf(),
        call_ensures(advance_admission_time, (base, elapsed), time),
    ensures
        base.unix_seconds + elapsed.total_nanos() / 1_000_000_000 <= u64::MAX ==> time.unix_seconds
            - base.unix_seconds == elapsed.total_nanos() / 1_000_000_000,
        base.monotonic_millis + elapsed.total_nanos() / 1_000_000 <= u64::MAX
            ==> time.monotonic_millis - base.monotonic_millis == elapsed.total_nanos() / 1_000_000,
        base.unix_seconds <= time.unix_seconds,
        base.monotonic_millis <= time.monotonic_millis,
{
}

} // verus!
