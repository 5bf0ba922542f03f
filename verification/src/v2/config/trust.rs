//! Controller trust: signing keys, revoked tickets and how long both hold.
use super::error::V2GatewayConfigError;
use crate::encoding;
use crate::ids::TicketId;
use vstd::prelude::*;
use vstd::utf8;

verus! {

/// Most controller keys.
pub const MAX_CONTROLLER_KEYS: usize = 32;

/// Most revoked tickets.
pub const MAX_REVOKED_TICKETS: usize = 4_096;

/// A hexadecimal digit, lower case.
pub open spec fn hex_digit(value: nat) -> u8 {
    if value < 10 {
        (0x30 + value) as u8
    } else {
        (0x61 + value - 10) as u8
    }
}

/// The value of a lower-case hexadecimal digit.
pub fn hex_lower(digit: u8) -> (value: Option<u8>)
    ensures
        match value {
            Some(value) => value < 16 && digit == hex_digit(value as nat),
            None => forall|v: nat| v < 16 ==> digit != #[trigger] hex_digit(v),
        },
{
    if 0x30 <= digit && digit <= 0x39 {
        Some(digit - 0x30)
    } else if 0x61 <= digit && digit <= 0x66 {
        Some(digit - 0x61 + 10)
    } else {
        None
    }
}

/// Where the two digits of a byte stand in a UUID: a hyphen comes before each of
/// the bytes 4, 6, 8 and 10.
pub open spec fn uuid_position(i: int) -> int {
    if i < 4 {
        2 * i
    } else if i < 6 {
        2 * i + 1
    } else if i < 8 {
        2 * i + 2
    } else if i < 10 {
        2 * i + 3
    } else {
        2 * i + 4
    }
}

/// Text is the canonical lower-case UUID of sixteen bytes.
pub open spec fn is_uuid(text: Seq<u8>, bytes: Seq<u8>) -> bool {
    &&& text.len() == 36
    &&& bytes.len() == 16
    &&& text[8] == 0x2d && text[13] == 0x2d && text[18] == 0x2d && text[23] == 0x2d
    &&& forall|i: int|
        0 <= i < 16 ==> text[uuid_position(i)] == hex_digit((#[trigger] bytes[i] / 16) as nat)
    &&& forall|i: int|
        0 <= i < 16 ==> text[uuid_position(i) + 1] == hex_digit((#[trigger] bytes[i] % 16) as nat)
}

/// Parses a canonical lower-case UUID. Anything else is `None`.
pub fn parse_uuid_lower(value: &str) -> (id: Option<[u8; 16]>)
    ensures
        match id {
            Some(bytes) => is_uuid(utf8::encode_utf8(value@), bytes@),
            None => forall|bytes: Seq<u8>|
                !#[trigger] is_uuid(utf8::encode_utf8(value@), bytes),
        },
{
    let text = value.as_bytes();
    if text.len() != 36 {
        return None;
    }
    if text[8] != 0x2d || text[13] != 0x2d || text[18] != 0x2d || text[23] != 0x2d {
        return None;
    }
    let mut bytes: [u8; 16] = [0u8; 16];
    let mut i: usize = 0;
    while i < 16
        invariant
            i <= 16,
            text@ == utf8::encode_utf8(value@),
            text@.len() == 36,
            text@[8] == 0x2d && text@[13] == 0x2d && text@[18] == 0x2d && text@[23] == 0x2d,
            forall|j: int|
                0 <= j < i ==> text@[uuid_position(j)] == hex_digit(
                    (#[trigger] bytes@[j] / 16) as nat,
                ),
            forall|j: int|
                0 <= j < i ==> text@[uuid_position(j) + 1] == hex_digit(
                    (#[trigger] bytes@[j] % 16) as nat,
                ),
        decreases 16 - i,
    {
        let at: usize = if i < 4 {
            2 * i
        } else if i < 6 {
            2 * i + 1
        } else if i < 8 {
            2 * i + 2
        } else if i < 10 {
            2 * i + 3
        } else {
            2 * i + 4
        };
        let (high, low) = match (hex_lower(text[at]), hex_lower(text[at + 1])) {
            (Some(high), Some(low)) => (high, low),
            _ => {
                proof {
                    assert forall|other: Seq<u8>| !#[trigger] is_uuid(text@, other) by {
                        if is_uuid(text@, other) {
                            assert(text@[at as int] == hex_digit((other[i as int] / 16) as nat));
                            assert(text@[at + 1] == hex_digit((other[i as int] % 16) as nat));
                        }
                    }
                }
                return None;
            },
        };
        let ghost before = bytes@;
        bytes[i] = high * 16 + low;
        proof {
            assert(bytes@[i as int] / 16 == high && bytes@[i as int] % 16 == low);
            assert forall|j: int| 0 <= j < i + 1 implies text@[uuid_position(j)] == hex_digit(
                (#[trigger] bytes@[j] / 16) as nat,
            ) by {
                if j < i {
                    assert(bytes@[j] == before[j]);
                    assert(text@[uuid_position(j)] == hex_digit((before[j] / 16) as nat));
                }
            }
            assert forall|j: int| 0 <= j < i + 1 implies text@[uuid_position(j) + 1] == hex_digit(
                (#[trigger] bytes@[j] % 16) as nat,
            ) by {
                if j < i {
                    assert(bytes@[j] == before[j]);
                    assert(text@[uuid_position(j) + 1] == hex_digit((before[j] % 16) as nat));
                }
            }
        }
        i = i + 1;
    }
    Some(bytes)
}

/// A UUID spells one identifier.
pub proof fn law_uuid_is_unambiguous(text: Seq<u8>, a: Seq<u8>, b: Seq<u8>)
    requires
        is_uuid(text, a),
        is_uuid(text, b),
    ensures
        a == b,
{
    assert forall|i: int| 0 <= i < 16 implies a[i] == b[i] by {
        assert(text[uuid_position(i)] == hex_digit((a[i] / 16) as nat));
        assert(text[uuid_position(i)] == hex_digit((b[i] / 16) as nat));
        assert(text[uuid_position(i) + 1] == hex_digit((a[i] % 16) as nat));
        assert(text[uuid_position(i) + 1] == hex_digit((b[i] % 16) as nat));
    }
    assert(a =~= b);
}

/// A controller signing key, as its file names it.
pub struct ControllerKeyFile {
    pub key_id: String,
    pub public_key_x: String,
}

/// The controller-trust file.
pub struct ControllerTrustFile {
    pub keys: Vec<ControllerKeyFile>,
    pub revoked_ticket_ids: Vec<String>,
    pub fresh_until_unix_seconds: u64,
}

/// What tickets are verified against.
pub struct ControllerTrust {
    keys: Vec<ControllerKeyFile>,
    revoked: Vec<TicketId>,
    fresh_until_unix_seconds: u64,
}

/// A revoked ticket is named by its UUID.
pub open spec fn revokes(text: Seq<char>, ticket: TicketId) -> bool {
    exists|bytes: Seq<u8>| #[trigger]
        is_uuid(utf8::encode_utf8(text), bytes) && ticket.key == encoding::be(bytes)
}

/// Text names no ticket.
pub open spec fn revokes_nothing(text: Seq<char>) -> bool {
    forall|bytes: Seq<u8>| !#[trigger] is_uuid(utf8::encode_utf8(text), bytes)
}

impl ControllerTrust {
    pub closed spec fn parts(&self) -> (Seq<ControllerKeyFile>, Seq<TicketId>, u64) {
        (self.keys@, self.revoked@, self.fresh_until_unix_seconds)
    }

    pub fn keys(&self) -> (keys: &Vec<ControllerKeyFile>)
        ensures
            keys@ == self.parts().0,
    {
        &self.keys
    }

    pub fn revoked(&self) -> (revoked: &Vec<TicketId>)
        ensures
            revoked@ == self.parts().1,
    {
        &self.revoked
    }

    pub fn fresh_until_unix_seconds(&self) -> (seconds: u64)
        ensures
            seconds == self.parts().2,
    {
        self.fresh_until_unix_seconds
    }
}

/// The bounds of a controller-trust file.
pub open spec fn trust_bounded(file: ControllerTrustFile) -> bool {
    &&& 0 < file.keys@.len() <= MAX_CONTROLLER_KEYS
    &&& file.revoked_ticket_ids@.len() <= MAX_REVOKED_TICKETS
    &&& file.fresh_until_unix_seconds != 0
}

/// A controller-trust file within its bounds whose revoked tickets are all
/// named by canonical UUIDs.
pub open spec fn trusted(file: ControllerTrustFile) -> bool {
    &&& trust_bounded(file)
    &&& forall|i: int|
        0 <= i < file.revoked_ticket_ids@.len() ==> !revokes_nothing(
            (#[trigger] file.revoked_ticket_ids@[i])@,
        )
}

/// Keys, revoked tickets and freshness are what the file says.
pub open spec fn trust_of(
    file: ControllerTrustFile,
    parts: (Seq<ControllerKeyFile>, Seq<TicketId>, u64),
) -> bool {
    &&& parts.0 == file.keys@
    &&& parts.2 == file.fresh_until_unix_seconds
    &&& parts.1.len() == file.revoked_ticket_ids@.len()
    &&& forall|i: int|
        0 <= i < file.revoked_ticket_ids@.len() ==> revokes(
            (#[trigger] file.revoked_ticket_ids@[i])@,
            parts.1[i],
        )
}

/// Validates a controller-trust file. Whether each key is one is for the
/// ticket verifier to say.
pub fn build_controller_trust(file: ControllerTrustFile) -> (result: Result<
    ControllerTrust,
    V2GatewayConfigError,
>)
    ensures
        match result {
            Ok(trust) => trusted(file) && trust_of(file, trust.parts()),
            Err(e) => e == V2GatewayConfigError::FilesystemRef && !trusted(file),
        },
{
    if file.keys.len() == 0 || file.keys.len() > MAX_CONTROLLER_KEYS
        || file.revoked_ticket_ids.len() > MAX_REVOKED_TICKETS || file.fresh_until_unix_seconds
        == 0 {
        return Err(V2GatewayConfigError::FilesystemRef);
    }
    let mut revoked: Vec<TicketId> = Vec::new();
    let mut i: usize = 0;
    while i < file.revoked_ticket_ids.len()
        invariant
            i <= file.revoked_ticket_ids@.len(),
            trust_bounded(file),
            revoked@.len() == i,
            forall|j: int|
                0 <= j < i ==> revokes(
                    (#[trigger] file.revoked_ticket_ids@[j])@,
                    revoked@[j],
                ),
        decreases file.revoked_ticket_ids@.len() - i,
    {
        match parse_uuid_lower(file.revoked_ticket_ids[i].as_str()) {
            Some(bytes) => {
                let ticket = TicketId::from_bytes(bytes);
                revoked.push(ticket);
                assert(is_uuid(utf8::encode_utf8(file.revoked_ticket_ids@[i as int]@), bytes@));
                assert(revokes(file.revoked_ticket_ids@[i as int]@, ticket));
            },
            None => {
                assert(revokes_nothing(file.revoked_ticket_ids@[i as int]@));
                return Err(V2GatewayConfigError::FilesystemRef);
            },
        }
        i = i + 1;
    }
    Ok(
        ControllerTrust {
            keys: file.keys,
            revoked,
            fresh_until_unix_seconds: file.fresh_until_unix_seconds,
        },
    )
}

/// The digit of a hexadecimal value is the one that spells it, in lower case.
pub open spec fn spells(digit: u8, value: nat) -> bool {
    ||| 0x30 <= digit <= 0x39 && value == digit - 0x30
    ||| 0x61 <= digit <= 0x66 && value == digit - 0x61 + 10
}

/// A UUID is thirty-six characters: hyphens at 8, 13, 18 and 23, and between them
/// thirty-two lower-case digits, two for each byte, the higher one first.
pub proof fn law_uuid_layout(text: Seq<u8>, bytes: Seq<u8>)
    requires
        bytes.len() == 16,
    ensures
        is_uuid(text, bytes) <==> {
            let digits = text.subrange(0, 8) + text.subrange(9, 13) + text.subrange(14, 18)
                + text.subrange(19, 23) + text.subrange(24, 36);
            &&& text.len() == 36
            &&& text[8] == 0x2d && text[13] == 0x2d && text[18] == 0x2d && text[23] == 0x2d
            &&& forall|i: int|
                0 <= i < 16 ==> spells(digits[2 * i], (#[trigger] bytes[i] / 16) as nat)
            &&& forall|i: int|
                0 <= i < 16 ==> spells(digits[2 * i + 1], (#[trigger] bytes[i] % 16) as nat)
        },
{
    let digits = text.subrange(0, 8) + text.subrange(9, 13) + text.subrange(14, 18)
        + text.subrange(19, 23) + text.subrange(24, 36);
    if text.len() == 36 {
        assert forall|i: int| 0 <= i < 16 implies digits[2 * i] == text[#[trigger] uuid_position(
            i,
        )] && digits[2 * i + 1] == text[uuid_position(i) + 1] by {}
        assert forall|i: int| 0 <= i < 16 implies (text[uuid_position(i)] == hex_digit(
            (#[trigger] bytes[i] / 16) as nat,
        )) == spells(digits[2 * i], (bytes[i] / 16) as nat) by {
            assert(digits[2 * i] == text[uuid_position(i)]);
        }
        assert forall|i: int| 0 <= i < 16 implies (text[uuid_position(i) + 1] == hex_digit(
            (#[trigger] bytes[i] % 16) as nat,
        )) == spells(digits[2 * i + 1], (bytes[i] % 16) as nat) by {
            assert(digits[2 * i + 1] == text[uuid_position(i) + 1]);
        }
    }
}

/// Text is a UUID.
pub open spec fn names_a_ticket(text: Seq<char>) -> bool {
    exists|bytes: Seq<u8>| #[trigger] is_uuid(utf8::encode_utf8(text), bytes)
}

/// A controller-trust file is accepted where it names one to 32 keys, up to 4,096
/// revoked tickets, each by a UUID, and a time until which it is fresh.
pub proof fn law_trust_is_bounded(file: ControllerTrustFile)
    ensures
        trusted(file) <==> {
            &&& 1 <= file.keys@.len() <= 32
            &&& file.revoked_ticket_ids@.len() <= 4_096
            &&& file.fresh_until_unix_seconds > 0
            &&& forall|i: int|
                0 <= i < file.revoked_ticket_ids@.len() ==> names_a_ticket(
                    (#[trigger] file.revoked_ticket_ids@[i])@,
                )
        },
{
    assert forall|i: int| 0 <= i < file.revoked_ticket_ids@.len() implies names_a_ticket(
        (#[trigger] file.revoked_ticket_ids@[i])@,
    ) == !revokes_nothing(file.revoked_ticket_ids@[i]@) by {}
}

/// A file that is accepted is trusted for what it says: its keys, its time, and as
/// revoked each ticket whose UUID it names, the sixteen bytes read as one number.
pub proof fn law_trust_is_what_the_file_says(file: ControllerTrustFile, trust: ControllerTrust)
    requires
        call_ensures(build_controller_trust, (file,), Ok(trust)),
    ensures
        trust.parts().0 == file.keys@,
        trust.parts().1.len() == file.revoked_ticket_ids@.len(),
        trust.parts().2 == file.fresh_until_unix_seconds,
        forall|i: int, bytes: Seq<u8>|
            0 <= i < file.revoked_ticket_ids@.len() && #[trigger] is_uuid(
                utf8::encode_utf8(file.revoked_ticket_ids@[i]@),
                bytes,
            ) ==> trust.parts().1[i].key == encoding::be(bytes),
{
    assert forall|i: int, bytes: Seq<u8>|
        0 <= i < file.revoked_ticket_ids@.len() && #[trigger] is_uuid(
            utf8::encode_utf8(file.revoked_ticket_ids@[i]@),
            bytes,
        ) implies trust.parts().1[i].key == encoding::be(bytes) by {
        let text = utf8::encode_utf8(file.revoked_ticket_ids@[i]@);
        assert(revokes(file.revoked_ticket_ids@[i]@, trust.parts().1[i]));
        let named = choose|named: Seq<u8>| #[trigger]
            is_uuid(text, named) && trust.parts().1[i].key == encoding::be(named);
        law_uuid_is_unambiguous(text, bytes, named);
    }
}

} // verus!
