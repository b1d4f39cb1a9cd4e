//! RTU control events as the shared events library defines them: the source
//! MTU is a text key and the creation time a signed Unix timestamp.
use vstd::prelude::*;
use crate::codec::{sha256, sha256_digest};
use crate::error::Error;
use crate::json::{json_string_literal, push_json_string};
use crate::text::{
    chars_of, hex_lower, is_hex_id, lemma_hex_lower_digits, push_hex_lower, push_signed_decimal,
    push_str, signed_decimal, string_push,
};
use vstd::utf8::encode_utf8;

verus! {

/// A control event issued by an MTU to an RTU.
#[derive(Debug, Clone, PartialEq, Eq)]
pub struct RtuControlEvent {
    /// Unique identifier for this event (hex-encoded SHA-256 of identifying fields).
    pub id: String,
    /// Public key of the originating MTU that created this event.
    pub source_mtu: String,
    /// Identifier of the target RTU that received this control command.
    pub rtu_id: String,
    /// Name or type of the control event (e.g., "BREAKER_OPEN", "SET_VOLTAGE").
    pub event_name: String,
    /// Human-readable description of the event and its parameters.
    pub event_description: String,
    /// Timestamp when the event was created (submitted), before blockchain anchoring.
    pub event_timestamp: i64,
}

/// The escape of one character of an identifying field: colons and
/// backslashes get a backslash in front, every other character stands for
/// itself.
pub open spec fn field_escape_char(c: char) -> Seq<char> {
    if c == ':' || c == '\\' {
        seq!['\\', c]
    } else {
        seq![c]
    }
}

/// An identifying field with its colons and backslashes escaped.
pub open spec fn field_escape(s: Seq<char>) -> Seq<char>
    decreases s.len(),
{
    if s.len() == 0 {
        Seq::empty()
    } else {
        field_escape(s.drop_last()) + field_escape_char(s.last())
    }
}

/// The text hashed into an event ID: source MTU, RTU ID, event name and
/// timestamp, joined by colons, each text field escaped so that no colon in
/// a field can be taken for a separator.
pub open spec fn id_input_text(
    source_mtu: Seq<char>,
    rtu_id: Seq<char>,
    event_name: Seq<char>,
    event_timestamp: int,
) -> Seq<char> {
    field_escape(source_mtu) + seq![':'] + field_escape(rtu_id) + seq![':'] + field_escape(
        event_name,
    ) + seq![':'] + signed_decimal(event_timestamp)
}

/// The event ID: lower-case hex of the SHA-256 digest of the UTF-8 bytes of
/// the joined identifying fields.
pub open spec fn event_id(
    source_mtu: Seq<char>,
    rtu_id: Seq<char>,
    event_name: Seq<char>,
    event_timestamp: int,
) -> Seq<char> {
    hex_lower(sha256(encode_utf8(id_input_text(source_mtu, rtu_id, event_name, event_timestamp))))
}

/// The JSON text of an event, fields in declaration order.
pub open spec fn event_json(e: RtuControlEvent) -> Seq<char> {
    "{\"id\":"@ + json_string_literal(e.id@) + ",\"source_mtu\":"@ + json_string_literal(
        e.source_mtu@,
    ) + ",\"rtu_id\":"@ + json_string_literal(e.rtu_id@) + ",\"event_name\":"@
        + json_string_literal(e.event_name@) + ",\"event_description\":"@ + json_string_literal(
        e.event_description@,
    ) + ",\"event_timestamp\":"@ + signed_decimal(e.event_timestamp as int) + "}"@
}

/// The one-line summary of an event.
pub open spec fn event_summary(e: RtuControlEvent) -> Seq<char> {
    "Event(id="@ + e.id@ + ", source_mtu="@ + e.source_mtu@ + ", rtu_id="@ + e.rtu_id@
        + ", event_name="@ + e.event_name@ + ", timestamp="@ + signed_decimal(
        e.event_timestamp as int,
    ) + ")"@
}

/// The error, if any, that event creation gives for these fields: the first
/// empty one in the order source MTU, RTU ID, event name, description.
pub open spec fn creation_error(
    source_mtu: Seq<char>,
    rtu_id: Seq<char>,
    event_name: Seq<char>,
    event_description: Seq<char>,
) -> Option<Error> {
    if source_mtu.len() == 0 {
        Some(Error::MissingSourceMtu)
    } else if rtu_id.len() == 0 {
        Some(Error::MissingRtuId)
    } else if event_name.len() == 0 {
        Some(Error::MissingEventName)
    } else if event_description.len() == 0 {
        Some(Error::MissingEventDescription)
    } else {
        None
    }
}

/// What event creation gives for these fields: the first missing field's
/// error, or an event that carries the fields and the ID derived from them.
pub open spec fn creation_result(
    source_mtu: Seq<char>,
    rtu_id: Seq<char>,
    event_name: Seq<char>,
    event_description: Seq<char>,
    event_timestamp: i64,
    r: Result<RtuControlEvent, Error>,
) -> bool {
    match creation_error(source_mtu, rtu_id, event_name, event_description) {
        Some(e) => r == Err::<RtuControlEvent, Error>(e),
        None => r matches Ok(ev) && ev.source_mtu@ == source_mtu && ev.rtu_id@ == rtu_id
            && ev.event_name@ == event_name && ev.event_description@ == event_description
            && ev.event_timestamp == event_timestamp && ev.id@ == event_id(
            source_mtu,
            rtu_id,
            event_name,
            event_timestamp as int,
        ) && is_hex_id(ev.id@),
    }
}

/// Appends an identifying field with its colons and backslashes escaped.
fn push_field(s: &mut String, t: &str)
    ensures
        final(s)@ == old(s)@ + field_escape(t@),
{
    let ghost start = s@;
    let cs = chars_of(t);
    let mut i: usize = 0;
    assert(t@.take(0) =~= Seq::<char>::empty());
    while i < cs.len()
        invariant
            cs@ == t@,
            i <= cs@.len(),
            s@ == start + field_escape(t@.take(i as int)),
        decreases cs@.len() - i,
    {
        let c = cs[i];
        assert(t@.take(i + 1).drop_last() =~= t@.take(i as int));
        if c == ':' || c == '\\' {
            string_push(s, '\\');
        }
        string_push(s, c);
        assert(s@ =~= start + field_escape(t@.take(i + 1)));
        i = i + 1;
    }
    assert(t@.take(cs@.len() as int) =~= t@);
}

impl RtuControlEvent {
    /// Creates a new RTU control event with the given metadata.
    ///
    /// All fields are validated to be non-empty; the ID is derived from the
    /// identifying fields (not the description).
    pub fn new(
        source_mtu: &str,
        rtu_id: &str,
        event_name: &str,
        event_description: &str,
        event_timestamp: i64,
    ) -> (r: Result<Self, Error>)
        ensures
            creation_result(
                source_mtu@,
                rtu_id@,
                event_name@,
                event_description@,
                event_timestamp,
                r,
            ),
    {
        if source_mtu.is_empty() {
            return Err(Error::MissingSourceMtu);
        }
        if rtu_id.is_empty() {
            return Err(Error::MissingRtuId);
        }
        if event_name.is_empty() {
            return Err(Error::MissingEventName);
        }
        if event_description.is_empty() {
            return Err(Error::MissingEventDescription);
        }
        let id = Self::generate_id(source_mtu, rtu_id, event_name, event_timestamp);
        Ok(RtuControlEvent {
            id,
            source_mtu: source_mtu.to_owned(),
            rtu_id: rtu_id.to_owned(),
            event_name: event_name.to_owned(),
            event_description: event_description.to_owned(),
            event_timestamp,
        })
    }

    /// The deterministic ID of the identifying fields: SHA-256 over
    /// `source:rtu:name:timestamp`, colons and backslashes inside the text
    /// fields escaped, in lower-case hex (64 digits).
    fn generate_id(source_mtu: &str, rtu_id: &str, event_name: &str, event_timestamp: i64) -> (r:
        String)
        ensures
            r@ == event_id(source_mtu@, rtu_id@, event_name@, event_timestamp as int),
            is_hex_id(r@),
    {
        let mut input = String::new();
        push_field(&mut input, source_mtu);
        string_push(&mut input, ':');
        push_field(&mut input, rtu_id);
        string_push(&mut input, ':');
        push_field(&mut input, event_name);
        string_push(&mut input, ':');
        push_signed_decimal(&mut input, event_timestamp);
        assert(input@ =~= id_input_text(source_mtu@, rtu_id@, event_name@, event_timestamp as int));
        let digest = sha256_digest(input.as_str().as_bytes());
        let mut id = String::new();
        push_hex_lower(&mut id, digest.as_slice());
        assert(id@ =~= event_id(source_mtu@, rtu_id@, event_name@, event_timestamp as int));
        proof {
            lemma_hex_lower_digits(digest@);
        }
        id
    }

    /// Serializes the event to its JSON text.
    pub fn to_json(&self) -> (r: Result<String, Error>)
        ensures
            r matches Ok(t) && t@ == event_json(*self),
    {
        let mut s = String::new();
        push_str(&mut s, "{\"id\":");
        push_json_string(&mut s, self.id.as_str());
        push_str(&mut s, ",\"source_mtu\":");
        push_json_string(&mut s, self.source_mtu.as_str());
        push_str(&mut s, ",\"rtu_id\":");
        push_json_string(&mut s, self.rtu_id.as_str());
        push_str(&mut s, ",\"event_name\":");
        push_json_string(&mut s, self.event_name.as_str());
        push_str(&mut s, ",\"event_description\":");
        push_json_string(&mut s, self.event_description.as_str());
        push_str(&mut s, ",\"event_timestamp\":");
        push_signed_decimal(&mut s, self.event_timestamp);
        push_str(&mut s, "}");
        assert(s@ =~= event_json(*self));
        Ok(s)
    }

    /// The one-line summary of the event (what `Display` shows).
    pub fn summary(&self) -> (r: String)
        ensures
            r@ == event_summary(*self),
    {
        let mut s = String::new();
        push_str(&mut s, "Event(id=");
        push_str(&mut s, self.id.as_str());
        push_str(&mut s, ", source_mtu=");
        push_str(&mut s, self.source_mtu.as_str());
        push_str(&mut s, ", rtu_id=");
        push_str(&mut s, self.rtu_id.as_str());
        push_str(&mut s, ", event_name=");
        push_str(&mut s, self.event_name.as_str());
        push_str(&mut s, ", timestamp=");
        push_signed_decimal(&mut s, self.event_timestamp);
        push_str(&mut s, ")");
        assert(s@ =~= event_summary(*self));
        s
    }
}

} // verus!

verus! {

/// Events created from the same source MTU, RTU ID, event name and timestamp
/// carry the same ID, whatever their descriptions.
pub proof fn lemma_id_is_deterministic(
    source_mtu: Seq<char>,
    rtu_id: Seq<char>,
    event_name: Seq<char>,
    description1: Seq<char>,
    description2: Seq<char>,
    event_timestamp: i64,
    r1: Result<RtuControlEvent, Error>,
    r2: Result<RtuControlEvent, Error>,
)
    requires
        creation_result(source_mtu, rtu_id, event_name, description1, event_timestamp, r1),
        creation_result(source_mtu, rtu_id, event_name, description2, event_timestamp, r2),
        r1 is Ok,
        r2 is Ok,
    ensures
        r1->Ok_0.id@ == r2->Ok_0.id@,
{
}

/// The escaped form of a non-empty field starts with the escape of its first
/// character.
proof fn lemma_field_escape_first(s: Seq<char>)
    requires
        s.len() > 0,
    ensures
        field_escape(s) == field_escape_char(s[0]) + field_escape(s.subrange(1, s.len() as int)),
    decreases s.len(),
{
    let rest = s.subrange(1, s.len() as int);
    if s.len() == 1 {
        assert(s.drop_last() =~= Seq::<char>::empty());
        assert(rest =~= Seq::<char>::empty());
        assert(field_escape(s.drop_last()) =~= Seq::<char>::empty());
        assert(s.last() == s[0]);
        assert(field_escape(s) =~= field_escape_char(s[0]));
    } else {
        let d = s.drop_last();
        lemma_field_escape_first(d);
        assert(d.subrange(1, d.len() as int) =~= rest.drop_last());
        assert(rest.last() == s.last());
        assert(field_escape(s) =~= field_escape_char(s[0]) + field_escape(rest));
    }
}

/// A field's escaped form ends at its first unescaped colon: where two texts
/// start with escaped fields each followed by a colon, the fields are equal
/// and so is what follows the colons.
pub proof fn lemma_field_escape_closed_unique(
    a: Seq<char>,
    b: Seq<char>,
    r1: Seq<char>,
    r2: Seq<char>,
)
    requires
        field_escape(a) + (seq![':'] + r1) == field_escape(b) + (seq![':'] + r2),
    ensures
        a == b,
        r1 == r2,
    decreases a.len() + b.len(),
{
    let q1 = seq![':'] + r1;
    let q2 = seq![':'] + r2;
    if a.len() == 0 && b.len() == 0 {
        assert(field_escape(a) =~= Seq::<char>::empty());
        assert(field_escape(b) =~= Seq::<char>::empty());
        assert(a =~= b);
        crate::text::lemma_cancel_prefix(seq![':'], r1, r2);
    } else if a.len() == 0 {
        assert(field_escape(a) =~= Seq::<char>::empty());
        lemma_field_escape_first(b);
        let eb = field_escape_char(b[0]);
        let t = field_escape(b) + q2;
        assert(t =~= eb + (field_escape(b.subrange(1, b.len() as int)) + q2));
        assert(t[0] == eb[0]);
        assert(q1[0] == ':');
    } else if b.len() == 0 {
        assert(field_escape(b) =~= Seq::<char>::empty());
        lemma_field_escape_first(a);
        let ea = field_escape_char(a[0]);
        let t = field_escape(a) + q1;
        assert(t =~= ea + (field_escape(a.subrange(1, a.len() as int)) + q1));
        assert(t[0] == ea[0]);
        assert(q2[0] == ':');
    } else {
        let a1 = a.subrange(1, a.len() as int);
        let b1 = b.subrange(1, b.len() as int);
        lemma_field_escape_first(a);
        lemma_field_escape_first(b);
        let ea = field_escape_char(a[0]);
        let eb = field_escape_char(b[0]);
        let t = field_escape(a) + q1;
        assert(t =~= ea + (field_escape(a1) + q1));
        assert(field_escape(b) + q2 =~= eb + (field_escape(b1) + q2));
        assert(t[0] == ea[0] && t[0] == eb[0]);
        if ea.len() == 2 {
            assert(t[1] == ea[1] && t[1] == eb[1]);
        }
        assert(a[0] == b[0]);
        crate::text::lemma_cancel_prefix(ea, field_escape(a1) + q1, field_escape(b1) + q2);
        lemma_field_escape_closed_unique(a1, b1, r1, r2);
        assert(a =~= seq![a[0]] + a1);
        assert(b =~= seq![b[0]] + b1);
    }
}

/// Events whose identifying fields differ in any way hash different inputs:
/// the joined text determines the source MTU, the RTU ID, the event name and
/// the timestamp.
pub proof fn lemma_distinct_fields_hash_distinct_inputs(
    source1: Seq<char>,
    rtu_id1: Seq<char>,
    event_name1: Seq<char>,
    timestamp1: int,
    source2: Seq<char>,
    rtu_id2: Seq<char>,
    event_name2: Seq<char>,
    timestamp2: int,
)
    requires
        source1 != source2 || rtu_id1 != rtu_id2 || event_name1 != event_name2 || timestamp1
            != timestamp2,
    ensures
        encode_utf8(id_input_text(source1, rtu_id1, event_name1, timestamp1)) != encode_utf8(
            id_input_text(source2, rtu_id2, event_name2, timestamp2),
        ),
{
    let t1 = id_input_text(source1, rtu_id1, event_name1, timestamp1);
    let t2 = id_input_text(source2, rtu_id2, event_name2, timestamp2);
    if encode_utf8(t1) == encode_utf8(t2) {
        crate::text::lemma_utf8_injective(t1, t2);
        let c = seq![':'];
        let n1 = field_escape(event_name1) + (c + signed_decimal(timestamp1));
        let n2 = field_escape(event_name2) + (c + signed_decimal(timestamp2));
        let m1 = field_escape(rtu_id1) + (c + n1);
        let m2 = field_escape(rtu_id2) + (c + n2);
        assert(t1 =~= field_escape(source1) + (c + m1));
        assert(t2 =~= field_escape(source2) + (c + m2));
        lemma_field_escape_closed_unique(source1, source2, m1, m2);
        lemma_field_escape_closed_unique(rtu_id1, rtu_id2, n1, n2);
        lemma_field_escape_closed_unique(
            event_name1,
            event_name2,
            signed_decimal(timestamp1),
            signed_decimal(timestamp2),
        );
        crate::text::lemma_signed_decimal_injective(timestamp1, timestamp2);
    }
}

/// A text with no colon and no backslash.
pub open spec fn plain_field(s: Seq<char>) -> bool {
    forall|i: int| 0 <= i < s.len() ==> #[trigger] s[i] != ':' && s[i] != '\\'
}

/// Escaping is done character by character: the escape of a concatenation
/// is the concatenation of the escapes.
pub proof fn lemma_field_escape_concat(a: Seq<char>, b: Seq<char>)
    ensures
        field_escape(a + b) == field_escape(a) + field_escape(b),
    decreases b.len(),
{
    if b.len() == 0 {
        assert(a + b =~= a);
        assert(field_escape(b) =~= Seq::<char>::empty());
        assert(field_escape(a) + field_escape(b) =~= field_escape(a));
    } else {
        lemma_field_escape_concat(a, b.drop_last());
        assert((a + b).drop_last() =~= a + b.drop_last());
        assert((a + b).last() == b.last());
        assert(field_escape(a + b) =~= field_escape(a) + field_escape(b));
    }
}

/// A field with no colon and no backslash is hashed as it stands: escaping
/// changes nothing in it.
pub proof fn lemma_plain_field_unescaped(s: Seq<char>)
    requires
        plain_field(s),
    ensures
        field_escape(s) == s,
    decreases s.len(),
{
    if s.len() > 0 {
        assert(plain_field(s.drop_last())) by {
            assert forall|i: int| 0 <= i < s.drop_last().len() implies #[trigger] s.drop_last()[i]
                != ':' && s.drop_last()[i] != '\\' by {
                assert(s.drop_last()[i] == s[i]);
            }
        }
        lemma_plain_field_unescaped(s.drop_last());
        assert(s[s.len() - 1] != ':' && s[s.len() - 1] != '\\');
        assert(s.drop_last().push(s.last()) =~= s);
    }
}

/// For fields with no colon and no backslash, the event ID is the lower-case
/// hex SHA-256 of `source:rtu_id:event_name:timestamp`, the fields written as
/// they stand and the timestamp in decimal.
pub proof fn lemma_plain_fields_id(
    source_mtu: Seq<char>,
    rtu_id: Seq<char>,
    event_name: Seq<char>,
    event_description: Seq<char>,
    event_timestamp: i64,
    r: Result<RtuControlEvent, Error>,
)
    requires
        creation_result(source_mtu, rtu_id, event_name, event_description, event_timestamp, r),
        r is Ok,
        plain_field(source_mtu),
        plain_field(rtu_id),
        plain_field(event_name),
    ensures
        r->Ok_0.id@ == hex_lower(
            sha256(
                encode_utf8(
                    source_mtu + seq![':'] + rtu_id + seq![':'] + event_name + seq![':']
                        + signed_decimal(event_timestamp as int),
                ),
            ),
        ),
{
    lemma_plain_field_unescaped(source_mtu);
    lemma_plain_field_unescaped(rtu_id);
    lemma_plain_field_unescaped(event_name);
}

} // verus!
