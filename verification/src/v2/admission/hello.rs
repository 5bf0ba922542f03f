//! The client's opening message.
use super::error::AdmissionError;
use crate::ids::DeviceId;
use crate::v2::control::{ControlMessage, MAX_GATEWAY_NAME_LEN};
use vstd::prelude::*;
use vstd::utf8;

verus! {

/// A `ClientHello` whose gateway name is within bounds.
pub struct BoundedClientHello {
    device_id: DeviceId,
    requested_gateway: String,
    ticket: String,
}

/// A gateway name that a hello may ask for: non-empty ASCII of bounded length.
pub open spec fn askable(name: Seq<char>) -> bool {
    &&& name.len() > 0
    &&& utf8::encode_utf8(name).len() <= MAX_GATEWAY_NAME_LEN
    &&& utf8::is_ascii_chars(name)
}

impl BoundedClientHello {
    /// The device, the gateway asked for and the ticket.
    pub closed spec fn parts(&self) -> (DeviceId, Seq<char>, Seq<char>) {
        (self.device_id, self.requested_gateway@, self.ticket@)
    }

    pub fn from_control_message(message: &ControlMessage) -> (result: Result<Self, AdmissionError>)
        ensures
            match message {
                ControlMessage::ClientHello { device_id, requested_gateway, ticket } => if askable(
                    requested_gateway@,
                ) {
                    result matches Ok(hello) && hello.parts() == (
                        *device_id,
                        requested_gateway@,
                        ticket@,
                    )
                } else {
                    result == Err::<Self, AdmissionError>(AdmissionError::InvalidHello)
                },
                _ => result == Err::<Self, AdmissionError>(AdmissionError::InvalidHello),
            },
    {
        match message {
            ControlMessage::ClientHello { device_id, requested_gateway, ticket } => {
                let name = requested_gateway.as_str();
                if name.is_empty() || name.as_bytes().len() > MAX_GATEWAY_NAME_LEN
                    || !name.is_ascii() {
                    return Err(AdmissionError::InvalidHello);
                }
                Ok(
                    BoundedClientHello {
                        device_id: *device_id,
                        requested_gateway: requested_gateway.clone(),
                        ticket: ticket.clone(),
                    },
                )
            },
            _ => Err(AdmissionError::InvalidHello),
        }
    }

    pub fn device_id(&self) -> (id: DeviceId)
        ensures
            id == self.parts().0,
    {
        self.device_id
    }

    pub fn requested_gateway(&self) -> (name: &str)
        ensures
            name@ == self.parts().1,
    {
        self.requested_gateway.as_str()
    }

    pub fn ticket(&self) -> (ticket: &str)
        ensures
            ticket@ == self.parts().2,
    {
        self.ticket.as_str()
    }
}

/// A hello is accepted where the gateway's name that it asks for has one to 253 bytes,
/// all of them ASCII; it says then what its message says. Any other message is no
/// hello.
pub proof fn law_hellos_are_bounded(
    message: &ControlMessage,
    result: Result<BoundedClientHello, AdmissionError>,
)
    requires
        call_ensures(BoundedClientHello::from_control_message, (message,), result),
    ensures
        result is Ok <==> (message is ClientHello && message->requested_gateway@.len() >= 1
            && utf8::encode_utf8(message->requested_gateway@).len() <= 253 && utf8::is_ascii_chars(
            message->requested_gateway@,
        )),
        result matches Ok(hello) ==> hello.parts().0 == message->device_id && hello.parts().1
            == message->requested_gateway@ && hello.parts().2 == message->ticket@,
        result matches Err(e) ==> e == AdmissionError::InvalidHello,
{
}

} // verus!
