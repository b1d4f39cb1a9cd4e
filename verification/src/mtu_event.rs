//! RTU control events as the MTU logs them on the ledger: the source MTU is
//! carried as raw bytes (base64 in JSON), the creation time in Unix epoch
//! milliseconds, and the ledger may add the time at which it took the event.
use vstd::prelude::*;
use crate::codec::{base64_encode, base64_roundtrips, base64_standard, sha256, sha256_digest};
use crate::error::Error;
use crate::json::{json_string_literal, push_json_string};
use crate::text::{decimal, hex_lower, is_hex_id, push_decimal, push_hex_lower, push_str};
use vstd::utf8::encode_utf8;

verus! {

/// A control event issued by an MTU to an RTU.
#[derive(Debug, Clone, PartialEq, Eq)]
pub struct RtuControlEvent {
    /// Unique identifier for this event (hex-encoded SHA-256 of canonical fields).
    pub id: String,
    /// Public key of the originating MTU that created this event (raw bytes).
    pub source_mtu: Vec<u8>,
    /// Identifier of the target RTU that received this control command.
    pub rtu_id: String,
    /// Name or type of the control event (e.g., "BREAKER_OPEN", "SET_VOLTAGE").
    pub event_name: String,
    /// Human-readable description of the event and its parameters.
    pub event_description: String,
    /// Timestamp when the event was created (Unix epoch milliseconds).
    pub event_timestamp: u64,
    /// Timestamp when the event was included in a block; not part of the ID.
    pub on_chain_timestamp: Option<u64>,
}

/// The canonical JSON text of the identifying fields, in this order: the
/// source MTU (base64), the RTU ID, the event name and the event timestamp.
pub open spec fn canonical_id_text(
    source_mtu: Seq<u8>,
    rtu_id: Seq<char>,
    event_name: Seq<char>,
    event_timestamp: nat,
) -> Seq<char> {
    "{\"source_mtu\":"@ + json_string_literal(base64_standard(source_mtu)) + ",\"rtu_id\":"@
        + json_string_literal(rtu_id) + ",\"event_name\":"@ + json_string_literal(event_name)
        + ",\"event_timestamp\":"@ + decimal(event_timestamp) + "}"@
}

/// The event ID: lower-case hex of the SHA-256 digest of the UTF-8 bytes of
/// the canonical JSON of the identifying fields.
pub open spec fn event_id(
    source_mtu: Seq<u8>,
    rtu_id: Seq<char>,
    event_name: Seq<char>,
    event_timestamp: nat,
) -> Seq<char> {
    hex_lower(sha256(encode_utf8(canonical_id_text(source_mtu, rtu_id, event_name, event_timestamp))))
}

/// The JSON text of an event with these fields, in field order, with the
/// source MTU in base64 and the on-chain timestamp left out when it is absent.
pub open spec fn event_text(
    id: Seq<char>,
    source_mtu: Seq<u8>,
    rtu_id: Seq<char>,
    event_name: Seq<char>,
    event_description: Seq<char>,
    event_timestamp: u64,
    on_chain_timestamp: Option<u64>,
) -> Seq<char> {
    "{\"id\":"@ + json_string_literal(id) + ",\"source_mtu\":"@ + json_string_literal(
        base64_standard(source_mtu),
    ) + ",\"rtu_id\":"@ + json_string_literal(rtu_id) + ",\"event_name\":"@
        + json_string_literal(event_name) + ",\"event_description\":"@ + json_string_literal(
        event_description,
    ) + ",\"event_timestamp\":"@ + decimal(event_timestamp as nat) + match on_chain_timestamp {
        Some(t) => ",\"on_chain_timestamp\":"@ + decimal(t as nat),
        None => Seq::empty(),
    } + "}"@
}

/// The JSON text of an event.
pub open spec fn event_json(e: RtuControlEvent) -> Seq<char> {
    event_text(
        e.id@,
        e.source_mtu@,
        e.rtu_id@,
        e.event_name@,
        e.event_description@,
        e.event_timestamp,
        e.on_chain_timestamp,
    )
}

/// The one-line summary of an event.
pub open spec fn event_summary(e: RtuControlEvent) -> Seq<char> {
    "Event(id="@ + e.id@ + ", source_mtu="@ + base64_standard(e.source_mtu@) + ", rtu_id="@
        + e.rtu_id@ + ", event_name="@ + e.event_name@ + ", timestamp="@ + decimal(
        e.event_timestamp as nat,
    ) + ")"@
}

/// The error, if any, that event creation gives for these fields: the first
/// empty one in the order source MTU, RTU ID, event name, description.
pub open spec fn creation_error(
    source_mtu: Seq<u8>,
    rtu_id: Seq<char>,
    event_name: Seq<char>,
    event_description: Seq<char>,
) -> Option<Error> {
    if source_mtu.len() == 0 {
        Some(Error::MissingSourceMtu)
    } else if rtu_id.len() == 0 {
        Some(Error::MissingRtuId)
    } else if event_name.len() == 0 {
        Some(Error::MissingEventName)
    } else if event_description.len() == 0 {
        Some(Error::MissingEventDescription)
    } else {
        None
    }
}

/// What event creation gives for these fields: the first missing field's
/// error, or an event that carries the fields, no on-chain timestamp, and the
/// ID derived from the identifying fields.
pub open spec fn creation_result(
    source_mtu: Seq<u8>,
    rtu_id: Seq<char>,
    event_name: Seq<char>,
    event_description: Seq<char>,
    event_timestamp: u64,
    r: Result<RtuControlEvent, Error>,
) -> bool {
    match creation_error(source_mtu, rtu_id, event_name, event_description) {
        Some(e) => r == Err::<RtuControlEvent, Error>(e),
        None => r matches Ok(ev) && ev.source_mtu@ == source_mtu && ev.rtu_id@ == rtu_id
            && ev.event_name@ == event_name && ev.event_description@ == event_description
            && ev.event_timestamp == event_timestamp && ev.on_chain_timestamp is None && ev.id@
            == event_id(source_mtu, rtu_id, event_name, event_timestamp as nat) && is_hex_id(
            ev.id@,
        ) && base64_roundtrips(source_mtu),
    }
}

impl RtuControlEvent {
    /// Creates a new RTU control event with the given metadata.
    ///
    /// All fields are validated to be non-empty; the ID is derived from the
    /// identifying fields (not the description).
    pub fn new(
        source_mtu: Vec<u8>,
        rtu_id: &str,
        event_name: &str,
        event_description: &str,
        event_timestamp: u64,
    ) -> (r: Result<Self, Error>)
        requires
            source_mtu@.len() <= isize::MAX,
        ensures
            creation_result(
                source_mtu@,
                rtu_id@,
                event_name@,
                event_description@,
                event_timestamp,
                r,
            ),
    {
        if source_mtu.len() == 0 {
            return Err(Error::MissingSourceMtu);
        }
        if rtu_id.is_empty() {
            return Err(Error::MissingRtuId);
        }
        if event_name.is_empty() {
            return Err(Error::MissingEventName);
        }
        if event_description.is_empty() {
            return Err(Error::MissingEventDescription);
        }
        let id = Self::generate_id(source_mtu.as_slice(), rtu_id, event_name, event_timestamp);
        Ok(RtuControlEvent {
            id,
            source_mtu,
            rtu_id: rtu_id.to_owned(),
            event_name: event_name.to_owned(),
            event_description: event_description.to_owned(),
            event_timestamp,
            on_chain_timestamp: None,
        })
    }

    /// The deterministic ID of the identifying fields: SHA-256 over their
    /// canonical JSON, in lower-case hex (64 digits). The description and the on-chain
    /// timestamp take no part.
    fn generate_id(source_mtu: &[u8], rtu_id: &str, event_name: &str, event_timestamp: u64) -> (r:
        String)
        requires
            source_mtu@.len() <= isize::MAX,
        ensures
            r@ == event_id(source_mtu@, rtu_id@, event_name@, event_timestamp as nat),
            is_hex_id(r@),
            base64_roundtrips(source_mtu@),
    {
        let source_b64 = base64_encode(source_mtu);
        let mut canonical = String::new();
        push_str(&mut canonical, "{\"source_mtu\":");
        push_json_string(&mut canonical, source_b64.as_str());
        push_str(&mut canonical, ",\"rtu_id\":");
        push_json_string(&mut canonical, rtu_id);
        push_str(&mut canonical, ",\"event_name\":");
        push_json_string(&mut canonical, event_name);
        push_str(&mut canonical, ",\"event_timestamp\":");
        push_decimal(&mut canonical, event_timestamp);
        push_str(&mut canonical, "}");
        assert(canonical@ =~= canonical_id_text(
            source_mtu@,
            rtu_id@,
            event_name@,
            event_timestamp as nat,
        ));
        let digest = sha256_digest(canonical.as_str().as_bytes());
        let mut id = String::new();
        push_hex_lower(&mut id, digest.as_slice());
        assert(id@ =~= event_id(source_mtu@, rtu_id@, event_name@, event_timestamp as nat));
        proof {
            crate::text::lemma_hex_lower_digits(digest@);
        }
        id
    }

    /// Serializes the event to its JSON text.
    pub fn to_json(&self) -> (r: Result<String, Error>)
        requires
            self.source_mtu@.len() <= isize::MAX,
        ensures
            r matches Ok(t) && t@ == event_json(*self),
    {
        let mut s = String::new();
        push_str(&mut s, "{\"id\":");
        push_json_string(&mut s, self.id.as_str());
        push_str(&mut s, ",\"source_mtu\":");
        let source_b64 = base64_encode(self.source_mtu.as_slice());
        push_json_string(&mut s, source_b64.as_str());
        push_str(&mut s, ",\"rtu_id\":");
        push_json_string(&mut s, self.rtu_id.as_str());
        push_str(&mut s, ",\"event_name\":");
        push_json_string(&mut s, self.event_name.as_str());
        push_str(&mut s, ",\"event_description\":");
        push_json_string(&mut s, self.event_description.as_str());
        push_str(&mut s, ",\"event_timestamp\":");
        push_decimal(&mut s, self.event_timestamp);
        match self.on_chain_timestamp {
            Some(t) => {
                push_str(&mut s, ",\"on_chain_timestamp\":");
                push_decimal(&mut s, t);
            },
            None => {},
        }
        push_str(&mut s, "}");
        assert(s@ =~= event_json(*self));
        Ok(s)
    }

    /// The one-line summary of the event (what `Display` shows).
    pub fn summary(&self) -> (r: String)
        requires
            self.source_mtu@.len() <= isize::MAX,
        ensures
            r@ == event_summary(*self),
    {
        let mut s = String::new();
        push_str(&mut s, "Event(id=");
        push_str(&mut s, self.id.as_str());
        push_str(&mut s, ", source_mtu=");
        let source_b64 = base64_encode(self.source_mtu.as_slice());
        push_str(&mut s, source_b64.as_str());
        push_str(&mut s, ", rtu_id=");
        push_str(&mut s, self.rtu_id.as_str());
        push_str(&mut s, ", event_name=");
        push_str(&mut s, self.event_name.as_str());
        push_str(&mut s, ", timestamp=");
        push_decimal(&mut s, self.event_timestamp);
        push_str(&mut s, ")");
        assert(s@ =~= event_summary(*self));
        s
    }
}

} // verus!

verus! {

/// Events created from the same source MTU, RTU ID, event name and timestamp
/// carry the same ID, whatever their descriptions.
pub proof fn lemma_id_is_deterministic(
    source_mtu: Seq<u8>,
    rtu_id: Seq<char>,
    event_name: Seq<char>,
    description1: Seq<char>,
    description2: Seq<char>,
    event_timestamp: u64,
    r1: Result<RtuControlEvent, Error>,
    r2: Result<RtuControlEvent, Error>,
)
    requires
        creation_result(source_mtu, rtu_id, event_name, description1, event_timestamp, r1),
        creation_result(source_mtu, rtu_id, event_name, description2, event_timestamp, r2),
        r1 is Ok,
        r2 is Ok,
    ensures
        r1->Ok_0.id@ == r2->Ok_0.id@,
{
}

/// Events created from identifying fields that differ in any way hash
/// different inputs: the canonical text, and so its UTF-8 bytes, determines
/// the source MTU, the RTU ID, the event name and the timestamp.
pub proof fn lemma_distinct_fields_hash_distinct_inputs(
    source1: Seq<u8>,
    rtu_id1: Seq<char>,
    event_name1: Seq<char>,
    description1: Seq<char>,
    timestamp1: u64,
    r1: Result<RtuControlEvent, Error>,
    source2: Seq<u8>,
    rtu_id2: Seq<char>,
    event_name2: Seq<char>,
    description2: Seq<char>,
    timestamp2: u64,
    r2: Result<RtuControlEvent, Error>,
)
    requires
        creation_result(source1, rtu_id1, event_name1, description1, timestamp1, r1),
        creation_result(source2, rtu_id2, event_name2, description2, timestamp2, r2),
        r1 is Ok,
        r2 is Ok,
        source1 != source2 || rtu_id1 != rtu_id2 || event_name1 != event_name2 || timestamp1
            != timestamp2,
    ensures
        encode_utf8(canonical_id_text(source1, rtu_id1, event_name1, timestamp1 as nat))
            != encode_utf8(canonical_id_text(source2, rtu_id2, event_name2, timestamp2 as nat)),
{
    let t1 = canonical_id_text(source1, rtu_id1, event_name1, timestamp1 as nat);
    let t2 = canonical_id_text(source2, rtu_id2, event_name2, timestamp2 as nat);
    if encode_utf8(t1) == encode_utf8(t2) {
        crate::text::lemma_utf8_injective(t1, t2);
        lemma_canonical_id_text_determines_fields(
            source1,
            rtu_id1,
            event_name1,
            timestamp1 as nat,
            source2,
            rtu_id2,
            event_name2,
            timestamp2 as nat,
        );
        assert(base64_roundtrips(source1) && base64_roundtrips(source2));
    }
}

/// The canonical text as its fixed parts and escaped fields, nested to the
/// right.
proof fn lemma_canonical_id_text_shape(
    source_mtu: Seq<u8>,
    rtu_id: Seq<char>,
    event_name: Seq<char>,
    event_timestamp: nat,
)
    ensures
        canonical_id_text(source_mtu, rtu_id, event_name, event_timestamp) == ("{\"source_mtu\":"@
            + seq!['"']) + (crate::json::json_escape(base64_standard(source_mtu)) + (seq!['"'] + ((
        ",\"rtu_id\":"@ + seq!['"']) + (crate::json::json_escape(rtu_id) + (seq!['"'] + ((
        ",\"event_name\":"@ + seq!['"']) + (crate::json::json_escape(event_name) + (seq!['"'] + (
        ",\"event_timestamp\":"@ + (decimal(event_timestamp) + "}"@)))))))))),
{
    let q = seq!['"'];
    let lb = json_string_literal(base64_standard(source_mtu));
    let lr = json_string_literal(rtu_id);
    let ln = json_string_literal(event_name);
    let tail = ",\"event_timestamp\":"@ + (decimal(event_timestamp) + "}"@);
    let n = crate::json::json_escape(event_name) + (q + tail);
    let after_name = ",\"event_name\":"@ + ln + tail;
    assert(after_name =~= (",\"event_name\":"@ + q) + n);
    let m = crate::json::json_escape(rtu_id) + (q + ((",\"event_name\":"@ + q) + n));
    let after_rtu = ",\"rtu_id\":"@ + lr + after_name;
    assert(after_rtu =~= (",\"rtu_id\":"@ + q) + m);
    let b = crate::json::json_escape(base64_standard(source_mtu)) + (q + ((",\"rtu_id\":"@ + q)
        + m));
    let whole = "{\"source_mtu\":"@ + lb + after_rtu;
    assert(whole =~= ("{\"source_mtu\":"@ + q) + b);
    assert(canonical_id_text(source_mtu, rtu_id, event_name, event_timestamp) =~= whole);
}

/// The canonical text of the identifying fields gives back the base64 of the
/// source MTU, the RTU ID, the event name and the timestamp.
proof fn lemma_canonical_id_text_determines_fields(
    source1: Seq<u8>,
    rtu_id1: Seq<char>,
    event_name1: Seq<char>,
    timestamp1: nat,
    source2: Seq<u8>,
    rtu_id2: Seq<char>,
    event_name2: Seq<char>,
    timestamp2: nat,
)
    requires
        canonical_id_text(source1, rtu_id1, event_name1, timestamp1) == canonical_id_text(
            source2,
            rtu_id2,
            event_name2,
            timestamp2,
        ),
    ensures
        base64_standard(source1) == base64_standard(source2),
        rtu_id1 == rtu_id2,
        event_name1 == event_name2,
        timestamp1 == timestamp2,
{
    let q = seq!['"'];
    let p0 = "{\"source_mtu\":"@ + q;
    let p1 = ",\"rtu_id\":"@ + q;
    let p2 = ",\"event_name\":"@ + q;
    let p3 = ",\"event_timestamp\":"@;
    let close = "}"@;
    let d1 = decimal(timestamp1) + close;
    let d2 = decimal(timestamp2) + close;
    let n1 = crate::json::json_escape(event_name1) + (q + (p3 + d1));
    let n2 = crate::json::json_escape(event_name2) + (q + (p3 + d2));
    let m1 = crate::json::json_escape(rtu_id1) + (q + (p2 + n1));
    let m2 = crate::json::json_escape(rtu_id2) + (q + (p2 + n2));
    let b1 = crate::json::json_escape(base64_standard(source1)) + (q + (p1 + m1));
    let b2 = crate::json::json_escape(base64_standard(source2)) + (q + (p1 + m2));
    lemma_canonical_id_text_shape(source1, rtu_id1, event_name1, timestamp1);
    lemma_canonical_id_text_shape(source2, rtu_id2, event_name2, timestamp2);
    crate::text::lemma_cancel_prefix(p0, b1, b2);
    crate::json::lemma_json_escape_closed_unique(
        base64_standard(source1),
        base64_standard(source2),
        p1 + m1,
        p1 + m2,
    );
    crate::text::lemma_cancel_prefix(p1, m1, m2);
    crate::json::lemma_json_escape_closed_unique(rtu_id1, rtu_id2, p2 + n1, p2 + n2);
    crate::text::lemma_cancel_prefix(p2, n1, n2);
    crate::json::lemma_json_escape_closed_unique(event_name1, event_name2, p3 + d1, p3 + d2);
    crate::text::lemma_cancel_prefix(p3, d1, d2);
    crate::text::lemma_cancel_suffix(decimal(timestamp1), decimal(timestamp2), close);
    crate::text::lemma_decimal_injective(timestamp1, timestamp2);
}

} // verus!
