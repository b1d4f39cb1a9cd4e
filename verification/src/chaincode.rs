//! The decisions of the ledger chaincode: how it answers each message of the
//! peer's stream and how it carries out the `LogEvent`, `QueryEvent` and
//! `GetAllEvents` transactions. The stream itself, the protobuf codec and the
//! clock belong to the program that runs the chaincode; it performs each
//! action that these functions return and hands back what came of it.
use vstd::prelude::*;
use vstd::utf8::{decode_utf8, encode_utf8, valid_utf8};
use crate::codec::{base64_decode, base64_standard_decoded};
use crate::error::error_debug;
use crate::json::{json_reformat, json_value_text};
use crate::mtu_event::{creation_error, event_id, event_text, RtuControlEvent};
use crate::text::{from_utf8_lossy, push_str, string_push, utf8_bytes, utf8_lossy};

verus! {

/// Shim message type: the chaincode registers with the peer.
pub const MSG_REGISTER: i32 = 1;
/// Shim message type: the peer acknowledges the registration.
pub const MSG_REGISTERED: i32 = 2;
/// Shim message type: the peer asks the chaincode to initialize.
pub const MSG_INIT: i32 = 3;
/// Shim message type: the peer reports the chaincode ready.
pub const MSG_READY: i32 = 4;
/// Shim message type: the peer asks the chaincode to run a transaction.
pub const MSG_TRANSACTION: i32 = 5;
/// Shim message type: a transaction completed.
pub const MSG_COMPLETED: i32 = 6;
/// Shim message type: an error.
pub const MSG_ERROR: i32 = 7;
/// Shim message type: read one key of the world state.
pub const MSG_GET_STATE: i32 = 8;
/// Shim message type: write one key of the world state.
pub const MSG_PUT_STATE: i32 = 9;
/// Shim message type: the peer answers a state request.
pub const MSG_RESPONSE: i32 = 13;
/// Shim message type: read a key range of the world state.
pub const MSG_GET_STATE_BY_RANGE: i32 = 14;

/// The DWNTP chaincode.
#[derive(Default)]
pub struct DwntpChaincode;

/// What the chaincode does with one message of the peer's stream.
#[derive(Debug, Clone, Copy, PartialEq, Eq)]
pub enum StreamStep {
    /// Nothing but a note in the log (registration and readiness messages).
    Note,
    /// Answer the initialization with a completed, empty response.
    ReplyToInit,
    /// Run the transaction that the message carries.
    HandleTransaction,
    /// Hand the message to the transaction that waits for its transaction ID.
    RouteToPending,
    /// A message type the chaincode does not handle.
    Unhandled,
}

/// How a transaction ends: a status, a message, and a payload.
#[derive(Debug, Clone, PartialEq, Eq)]
pub struct TxOutcome {
    pub status: i32,
    pub message: String,
    pub payload: Vec<u8>,
}

/// The fields of a `LogEvent` request, the source MTU in base64.
#[derive(Debug, Clone, PartialEq, Eq)]
pub struct EventInput {
    pub source_mtu: String,
    pub rtu_id: String,
    pub event_name: String,
    pub event_description: String,
    pub event_timestamp: u64,
}

/// The next thing a transaction needs done.
#[derive(Debug, Clone, PartialEq, Eq)]
pub enum TxAction {
    /// The transaction is over.
    Finish(TxOutcome),
    /// Parse this JSON text as an event request and hand the fields back.
    ParseEventInput { json: String },
    /// Write `value` under `key`, then report the peer's answer.
    PutState { key: String, value: Vec<u8>, event_id: String },
    /// Read `key`, then report the peer's answer.
    GetState { key: String, event_id: String },
    /// Read all keys from `start_key` (inclusive) to `end_key` (exclusive).
    GetStateByRange { start_key: String, end_key: String },
}

/// The peer's answer to a single-key request.
#[derive(Debug, Clone, PartialEq, Eq)]
pub enum PeerReply {
    /// A RESPONSE message with its payload.
    Response(Vec<u8>),
    /// An ERROR message with its payload.
    Error(Vec<u8>),
    /// Any other message, or none because the stream closed.
    Other,
}

/// The peer's answer to a range request, its payload already decoded.
#[derive(Debug, Clone, PartialEq, Eq)]
pub enum RangeReply {
    /// A RESPONSE whose query result decoded: the value of each stored entry,
    /// or `None` for an entry that did not decode.
    Results(Vec<Option<Vec<u8>>>),
    /// A RESPONSE whose payload was no query result, with the decoder's message.
    Undecodable(String),
    /// An ERROR message with its payload.
    Error(Vec<u8>),
    /// Any other message, or none because the stream closed.
    Other,
}

/// What the chaincode sends back when a transaction is over.
#[derive(Debug, Clone, PartialEq, Eq)]
pub enum ShimReply {
    /// A COMPLETED message carrying the outcome as a response.
    Completed(TxOutcome),
    /// An ERROR message carrying these bytes.
    Error(Vec<u8>),
}

/// Where a transaction stands.
#[derive(Debug, Clone, PartialEq, Eq)]
pub enum TxState {
    /// Nothing of the transaction has been looked at yet.
    Start,
    /// Waiting for the `LogEvent` request, parsed, and the ledger time.
    AwaitingInput,
    /// Waiting for the peer's answer to the write of this event.
    AwaitingWrite { event_id: String },
    /// Waiting for the peer's answer to the read of this event.
    AwaitingRead { event_id: String },
    /// Waiting for the peer's answer to the range read.
    AwaitingRange,
    /// The final reply has gone out.
    Done,
}

/// What comes to a transaction.
#[derive(Debug, PartialEq, Eq)]
pub enum TxEvent {
    /// The transaction's input: its arguments, or the decoder's message.
    Input(Result<Vec<Vec<u8>>, String>),
    /// The `LogEvent` request as parsed (or the parser's message), and the
    /// ledger time.
    Parsed(Result<EventInput, String>, u64),
    /// The peer's answer to a single-key request.
    Peer(PeerReply),
    /// The peer's answer to a range request.
    Range(RangeReply),
}

/// What the chaincode does next for a transaction.
#[derive(Debug, Clone, PartialEq, Eq)]
pub enum TxCommand {
    /// Parse this JSON as a `LogEvent` request, and read the ledger clock.
    Parse { json: String },
    /// Ask the peer to write `value` under `key`.
    PutState { key: String, value: Vec<u8> },
    /// Ask the peer to read `key`.
    GetState { key: String },
    /// Ask the peer for the keys from `start_key` (inclusive) to `end_key`
    /// (exclusive).
    GetStateByRange { start_key: String, end_key: String },
    /// Send this final reply; the transaction is over.
    Reply(ShimReply),
    /// Nothing: the transaction was not waiting for what came.
    Ignore,
}

/// An outcome with this status, message and payload.
pub open spec fn is_outcome(o: TxOutcome, status: int, message: Seq<char>, payload: Seq<u8>) -> bool {
    o.status == status && o.message@ == message && o.payload@ == payload
}

/// The action that ends a transaction with this outcome.
pub open spec fn finishes(a: TxAction, status: int, message: Seq<char>, payload: Seq<u8>) -> bool {
    a matches TxAction::Finish(o) && is_outcome(o, status, message, payload)
}

/// The world-state key of an event.
pub open spec fn event_key(id: Seq<char>) -> Seq<char> {
    "event_"@ + id
}

/// The function name that a transaction's first argument carries.
pub open spec fn function_name(args: Seq<Vec<u8>>) -> Seq<char> {
    utf8_lossy(args[0]@)
}

/// The source MTU bytes of a request: its base64 decoded, or nothing where
/// the text is not base64.
pub open spec fn decoded_source(text: Seq<char>) -> Seq<u8> {
    match base64_standard_decoded(text) {
        Some(b) => b,
        None => Seq::empty(),
    }
}

/// The compact JSON of each stored value that parses as JSON, in order.
pub open spec fn listed_values(values: Seq<Option<Vec<u8>>>) -> Seq<Seq<char>>
    decreases values.len(),
{
    if values.len() == 0 {
        Seq::empty()
    } else {
        listed_values(values.drop_last()) + match values.last() {
            Some(v) => match json_value_text(utf8_lossy(v@)) {
                Some(t) => seq![t],
                None => Seq::empty(),
            },
            None => Seq::empty(),
        }
    }
}

/// Texts joined by commas.
pub open spec fn comma_joined(items: Seq<Seq<char>>) -> Seq<char>
    decreases items.len(),
{
    if items.len() == 0 {
        Seq::empty()
    } else if items.len() == 1 {
        items[0]
    } else {
        comma_joined(items.drop_last()) + seq![','] + items.last()
    }
}

/// A JSON array of already-written JSON values.
pub open spec fn json_array(items: Seq<Seq<char>>) -> Seq<char> {
    seq!['['] + comma_joined(items) + seq![']']
}

/// What the first step of a transaction gives for its arguments. For
/// `QueryEvent`, the ID read is the parameter's text, and well-formed UTF-8
/// is read as it stands.
pub open spec fn begin_result(args: Seq<Vec<u8>>, r: TxAction) -> bool {
    &&& args.len() == 0 ==> finishes(r, 500, "Missing function name"@, Seq::empty())
    &&& args.len() > 0 && function_name(args) == "LogEvent"@ ==> if args.len() < 2 {
        finishes(r, 500, "Missing event JSON payload"@, Seq::empty())
    } else {
        r matches TxAction::ParseEventInput { json } && json@ == utf8_lossy(args[1]@)
    }
    &&& args.len() > 0 && function_name(args) == "QueryEvent"@ ==> if args.len() < 2 {
        finishes(r, 500, "Missing event ID parameter"@, Seq::empty())
    } else {
        &&& r matches TxAction::GetState { key, event_id } && event_id@ == utf8_lossy(args[1]@)
            && key@ == event_key(event_id@)
        &&& valid_utf8(args[1]@) ==> utf8_lossy(args[1]@) == decode_utf8(args[1]@)
    }
    &&& args.len() > 0 && function_name(args) == "GetAllEvents"@ ==> (r matches TxAction::GetStateByRange {
        start_key,
        end_key,
    } && start_key@ == "event_"@ && end_key@ == "event_g"@)
    &&& args.len() > 0 && function_name(args) != "LogEvent"@ && function_name(args)
        != "QueryEvent"@ && function_name(args) != "GetAllEvents"@ ==> finishes(
        r,
        500,
        "Unknown function: "@ + function_name(args),
        Seq::empty(),
    )
}

/// What the second step of `LogEvent` gives for the parsed request (or the
/// parser's message) and the ledger time: the refusal of a request that did
/// not parse or whose event is not valid, else the write of the event's JSON,
/// stamped with the ledger time, under its key.
pub open spec fn continue_result(input: Result<EventInput, String>, now_millis: u64, r: TxAction) -> bool {
    &&& input matches Err(e) ==> finishes(
        r,
        500,
        "Invalid event JSON schema: "@ + e@,
        Seq::empty(),
    )
    &&& input matches Ok(i) ==> match creation_error(
        decoded_source(i.source_mtu@),
        i.rtu_id@,
        i.event_name@,
        i.event_description@,
    ) {
        Some(e) => finishes(r, 500, "Event validation failed: "@ + error_debug(e), Seq::empty()),
        None => r matches TxAction::PutState { key, value, event_id } && event_id@
            == crate::mtu_event::event_id(
            decoded_source(i.source_mtu@),
            i.rtu_id@,
            i.event_name@,
            i.event_timestamp as nat,
        ) && key@ == event_key(event_id@) && value@ == encode_utf8(
            event_text(
                event_id@,
                decoded_source(i.source_mtu@),
                i.rtu_id@,
                i.event_name@,
                i.event_description@,
                i.event_timestamp,
                Some(now_millis),
            ),
        ),
    }
}

/// How `LogEvent` ends, from the peer's answer to the write: the event's ID
/// on success, the peer's message on error.
pub open spec fn log_finish_result(event_id: Seq<char>, reply: PeerReply, r: TxOutcome) -> bool {
    match reply {
        PeerReply::Response(_) => is_outcome(r, 200, Seq::empty(), encode_utf8(event_id)),
        PeerReply::Error(p) => is_outcome(r, 500, utf8_lossy(p@), Seq::empty()),
        PeerReply::Other => is_outcome(r, 200, Seq::empty(), Seq::empty()),
    }
}

/// How `QueryEvent` ends, from the peer's answer to the read: the stored
/// JSON, or 404 when nothing is stored under the key.
pub open spec fn query_finish_result(event_id: Seq<char>, reply: PeerReply, r: TxOutcome) -> bool {
    match reply {
        PeerReply::Response(p) => if p@.len() == 0 {
            is_outcome(r, 404, "Event "@ + event_id + " not found"@, Seq::empty())
        } else {
            is_outcome(r, 200, Seq::empty(), p@)
        },
        PeerReply::Error(p) => is_outcome(r, 500, utf8_lossy(p@), Seq::empty()),
        PeerReply::Other => is_outcome(r, 200, Seq::empty(), Seq::empty()),
    }
}

/// How `GetAllEvents` ends, from the peer's answer to the range read: a JSON
/// array of every stored value that parses as JSON.
pub open spec fn list_finish_result(reply: RangeReply, r: TxOutcome) -> bool {
    match reply {
        RangeReply::Results(values) => is_outcome(
            r,
            200,
            Seq::empty(),
            encode_utf8(json_array(listed_values(values@))),
        ),
        RangeReply::Undecodable(m) => is_outcome(
            r,
            500,
            "Failed to decode QueryResponse: "@ + m@,
            Seq::empty(),
        ),
        RangeReply::Error(p) => is_outcome(r, 500, utf8_lossy(p@), Seq::empty()),
        RangeReply::Other => is_outcome(r, 200, Seq::empty(), Seq::empty()),
    }
}

/// The final message of a transaction: an ERROR carrying the message for a
/// status of 400 or more, otherwise a COMPLETED response with the outcome.
pub open spec fn reply_result(outcome: TxOutcome, r: ShimReply) -> bool {
    if outcome.status >= 400 {
        r matches ShimReply::Error(b) && b@ == encode_utf8(outcome.message@)
    } else {
        r == ShimReply::Completed(outcome)
    }
}

/// The final reply that an outcome gives, the transaction being over.
pub open spec fn ends_with(o: TxOutcome, next: TxState, c: TxCommand) -> bool {
    &&& next == TxState::Done
    &&& c matches TxCommand::Reply(rep) && reply_result(o, rep)
}

/// The state and command that carry out a transaction action.
pub open spec fn carries_out(a: TxAction, next: TxState, c: TxCommand) -> bool {
    match a {
        TxAction::Finish(o) => ends_with(o, next, c),
        TxAction::ParseEventInput { json } => next == TxState::AwaitingInput && c == (
        TxCommand::Parse { json }),
        TxAction::PutState { key, value, event_id } => next == (TxState::AwaitingWrite { event_id })
            && c == (TxCommand::PutState { key, value }),
        TxAction::GetState { key, event_id } => next == (TxState::AwaitingRead { event_id }) && c
            == (TxCommand::GetState { key }),
        TxAction::GetStateByRange { start_key, end_key } => next == TxState::AwaitingRange && c
            == (TxCommand::GetStateByRange { start_key, end_key }),
    }
}

/// A step that the transaction was not waiting for: nothing changes.
pub open spec fn ignores(state: TxState, next: TxState, c: TxCommand) -> bool {
    next == state && c == TxCommand::Ignore
}

/// One step of a transaction: from `state`, on `event`, the transaction
/// moves to `next` and does `c`.
pub open spec fn tx_step_result(state: TxState, event: TxEvent, next: TxState, c: TxCommand) -> bool {
    match state {
        TxState::Start => match event {
            TxEvent::Input(Err(m)) => exists|o: TxOutcome|
                #![trigger ends_with(o, next, c)]
                is_outcome(o, 500, "Failed to decode ChaincodeInput: "@ + m@, Seq::empty())
                    && ends_with(o, next, c),
            TxEvent::Input(Ok(args)) => exists|a: TxAction|
                #![trigger carries_out(a, next, c)]
                begin_result(args@, a) && carries_out(a, next, c),
            _ => ignores(state, next, c),
        },
        TxState::AwaitingInput => match event {
            TxEvent::Parsed(input, now) => exists|a: TxAction|
                #![trigger carries_out(a, next, c)]
                continue_result(input, now, a) && carries_out(a, next, c),
            _ => ignores(state, next, c),
        },
        TxState::AwaitingWrite { event_id } => match event {
            TxEvent::Peer(reply) => exists|o: TxOutcome|
                #![trigger ends_with(o, next, c)]
                log_finish_result(event_id@, reply, o) && ends_with(o, next, c),
            _ => ignores(state, next, c),
        },
        TxState::AwaitingRead { event_id } => match event {
            TxEvent::Peer(reply) => exists|o: TxOutcome|
                #![trigger ends_with(o, next, c)]
                query_finish_result(event_id@, reply, o) && ends_with(o, next, c),
            _ => ignores(state, next, c),
        },
        TxState::AwaitingRange => match event {
            TxEvent::Range(reply) => exists|o: TxOutcome|
                #![trigger ends_with(o, next, c)]
                list_finish_result(reply, o) && ends_with(o, next, c),
            _ => ignores(state, next, c),
        },
        TxState::Done => ignores(state, next, c),
    }
}

impl DwntpChaincode {
    /// What to do with a message of the peer's stream, by its type.
    pub fn classify(&self, msg_type: i32) -> (r: StreamStep)
        ensures
            r == (if msg_type == MSG_REGISTER || msg_type == MSG_REGISTERED || msg_type == MSG_READY {
                StreamStep::Note
            } else if msg_type == MSG_INIT {
                StreamStep::ReplyToInit
            } else if msg_type == MSG_TRANSACTION {
                StreamStep::HandleTransaction
            } else if msg_type == MSG_RESPONSE || msg_type == MSG_ERROR {
                StreamStep::RouteToPending
            } else {
                StreamStep::Unhandled
            }),
    {
        if msg_type == MSG_REGISTER || msg_type == MSG_REGISTERED || msg_type == MSG_READY {
            StreamStep::Note
        } else if msg_type == MSG_INIT {
            StreamStep::ReplyToInit
        } else if msg_type == MSG_TRANSACTION {
            StreamStep::HandleTransaction
        } else if msg_type == MSG_RESPONSE || msg_type == MSG_ERROR {
            StreamStep::RouteToPending
        } else {
            StreamStep::Unhandled
        }
    }

    /// The response to the peer's initialization: status 200, nothing else.
    pub fn init_outcome(&self) -> (r: TxOutcome)
        ensures
            is_outcome(r, 200, Seq::empty(), Seq::empty()),
    {
        TxOutcome { status: 200, message: String::new(), payload: Vec::new() }
    }

    /// The end of a transaction whose input did not decode, with the
    /// decoder's message.
    pub fn input_undecodable(&self, error: &str) -> (r: TxOutcome)
        ensures
            is_outcome(r, 500, "Failed to decode ChaincodeInput: "@ + error@, Seq::empty()),
    {
        let mut message = "Failed to decode ChaincodeInput: ".to_owned();
        push_str(&mut message, error);
        TxOutcome { status: 500, message, payload: Vec::new() }
    }

    /// The first step of a transaction, from its arguments: the function name
    /// and, for `LogEvent` and `QueryEvent`, one parameter.
    pub fn begin_transaction(&self, args: &Vec<Vec<u8>>) -> (r: TxAction)
        ensures
            begin_result(args@, r),
    {
        proof {
            reveal_strlit("LogEvent");
            reveal_strlit("QueryEvent");
            reveal_strlit("GetAllEvents");
            assert("LogEvent"@.len() == 8);
            assert("QueryEvent"@.len() == 10);
            assert("GetAllEvents"@.len() == 12);
        }
        if args.len() == 0 {
            return TxAction::Finish(
                TxOutcome { status: 500, message: "Missing function name".to_owned(), payload: Vec::new() },
            );
        }
        let func = from_utf8_lossy(args[0].as_slice());
        if func == "LogEvent".to_owned() {
            if args.len() < 2 {
                TxAction::Finish(
                    TxOutcome {
                        status: 500,
                        message: "Missing event JSON payload".to_owned(),
                        payload: Vec::new(),
                    },
                )
            } else {
                TxAction::ParseEventInput { json: from_utf8_lossy(args[1].as_slice()) }
            }
        } else if func == "QueryEvent".to_owned() {
            if args.len() < 2 {
                TxAction::Finish(
                    TxOutcome {
                        status: 500,
                        message: "Missing event ID parameter".to_owned(),
                        payload: Vec::new(),
                    },
                )
            } else {
                let event_id = from_utf8_lossy(args[1].as_slice());
                let mut key = "event_".to_owned();
                push_str(&mut key, event_id.as_str());
                TxAction::GetState { key, event_id }
            }
        } else if func == "GetAllEvents".to_owned() {
            TxAction::GetStateByRange {
                start_key: "event_".to_owned(),
                end_key: "event_g".to_owned(),
            }
        } else {
            let mut message = "Unknown function: ".to_owned();
            push_str(&mut message, func.as_str());
            TxAction::Finish(TxOutcome { status: 500, message, payload: Vec::new() })
        }
    }

    /// The second step of `LogEvent`, once the request's JSON has been parsed
    /// (or refused, with the parser's message): validate the event, stamp it
    /// with the ledger time `now_millis`, and store its JSON under its key.
    pub fn continue_log_event(&self, input: Result<EventInput, String>, now_millis: u64) -> (r:
        TxAction)
        ensures
            continue_result(input, now_millis, r),
    {
        match input {
            Err(e) => {
                let mut message = "Invalid event JSON schema: ".to_owned();
                push_str(&mut message, e.as_str());
                TxAction::Finish(TxOutcome { status: 500, message, payload: Vec::new() })
            },
            Ok(i) => {
                let source_bytes = match base64_decode(i.source_mtu.as_str()) {
                    Some(b) => b,
                    None => Vec::new(),
                };
                match RtuControlEvent::new(
                    source_bytes,
                    i.rtu_id.as_str(),
                    i.event_name.as_str(),
                    i.event_description.as_str(),
                    i.event_timestamp,
                ) {
                    Ok(mut event) => {
                        event.on_chain_timestamp = Some(now_millis);
                        let json = match event.to_json() {
                            Ok(t) => t,
                            Err(_) => String::new(),
                        };
                        let mut key = "event_".to_owned();
                        push_str(&mut key, event.id.as_str());
                        TxAction::PutState {
                            key,
                            value: utf8_bytes(json.as_str()),
                            event_id: event.id,
                        }
                    },
                    Err(e) => {
                        let mut message = "Event validation failed: ".to_owned();
                        push_str(&mut message, e.debug_text().as_str());
                        TxAction::Finish(TxOutcome { status: 500, message, payload: Vec::new() })
                    },
                }
            },
        }
    }

    /// The end of `LogEvent`, from the peer's answer to the write: the event's
    /// ID on success, the peer's message on error.
    pub fn finish_log_event(&self, event_id: &String, reply: PeerReply) -> (r: TxOutcome)
        ensures
            log_finish_result(event_id@, reply, r),
    {
        match reply {
            PeerReply::Response(_) => TxOutcome {
                status: 200,
                message: String::new(),
                payload: utf8_bytes(event_id.as_str()),
            },
            PeerReply::Error(p) => TxOutcome {
                status: 500,
                message: from_utf8_lossy(p.as_slice()),
                payload: Vec::new(),
            },
            PeerReply::Other => TxOutcome { status: 200, message: String::new(), payload: Vec::new() },
        }
    }

    /// The end of `QueryEvent`, from the peer's answer to the read: the stored
    /// JSON, or 404 when nothing is stored under the key.
    pub fn finish_query_event(&self, event_id: &String, reply: PeerReply) -> (r: TxOutcome)
        ensures
            query_finish_result(event_id@, reply, r),
    {
        match reply {
            PeerReply::Response(p) => {
                if p.len() == 0 {
                    let mut message = "Event ".to_owned();
                    push_str(&mut message, event_id.as_str());
                    push_str(&mut message, " not found");
                    TxOutcome { status: 404, message, payload: Vec::new() }
                } else {
                    TxOutcome { status: 200, message: String::new(), payload: p }
                }
            },
            PeerReply::Error(p) => TxOutcome {
                status: 500,
                message: from_utf8_lossy(p.as_slice()),
                payload: Vec::new(),
            },
            PeerReply::Other => TxOutcome { status: 200, message: String::new(), payload: Vec::new() },
        }
    }

    /// The end of `GetAllEvents`, from the peer's answer to the range read: a
    /// JSON array of every stored value that parses as JSON.
    pub fn finish_get_all_events(&self, reply: RangeReply) -> (r: TxOutcome)
        ensures
            list_finish_result(reply, r),
    {
        match reply {
            RangeReply::Results(values) => {
                let text = Self::list_values(&values);
                TxOutcome { status: 200, message: String::new(), payload: utf8_bytes(text.as_str()) }
            },
            RangeReply::Undecodable(m) => {
                let mut message = "Failed to decode QueryResponse: ".to_owned();
                push_str(&mut message, m.as_str());
                TxOutcome { status: 500, message, payload: Vec::new() }
            },
            RangeReply::Error(p) => TxOutcome {
                status: 500,
                message: from_utf8_lossy(p.as_slice()),
                payload: Vec::new(),
            },
            RangeReply::Other => TxOutcome { status: 200, message: String::new(), payload: Vec::new() },
        }
    }

    /// The JSON array of the stored values that parse as JSON.
    fn list_values(values: &Vec<Option<Vec<u8>>>) -> (r: String)
        ensures
            r@ == json_array(listed_values(values@)),
    {
        let mut body = String::new();
        let n = values.len();
        let mut i: usize = 0;
        let mut empty = true;
        assert(values@.take(0) =~= Seq::<Option<Vec<u8>>>::empty());
        while i < n
            invariant
                n == values@.len(),
                i <= n,
                body@ == comma_joined(listed_values(values@.take(i as int))),
                empty == (listed_values(values@.take(i as int)).len() == 0),
            decreases n - i,
        {
            let ghost before = listed_values(values@.take(i as int));
            assert(values@.take(i + 1).drop_last() =~= values@.take(i as int));
            match &values[i] {
                Some(v) => {
                    let text = from_utf8_lossy(v.as_slice());
                    match json_reformat(text.as_str()) {
                        Some(t) => {
                            if !empty {
                                string_push(&mut body, ',');
                            }
                            empty = false;
                            push_str(&mut body, t.as_str());
                            assert(listed_values(values@.take(i + 1)) =~= before.push(t@));
                            assert(before.push(t@).drop_last() =~= before);
                            assert(body@ =~= comma_joined(before.push(t@)));
                        },
                        None => {
                            assert(listed_values(values@.take(i + 1)) =~= before);
                        },
                    }
                },
                None => {
                    assert(listed_values(values@.take(i + 1)) =~= before);
                },
            }
            i = i + 1;
        }
        assert(values@.take(n as int) =~= values@);
        let mut r = String::new();
        string_push(&mut r, '[');
        push_str(&mut r, body.as_str());
        string_push(&mut r, ']');
        assert(r@ =~= json_array(listed_values(values@)));
        r
    }

    /// The state and command that carry out an action.
    fn carry_out(&self, a: TxAction) -> (r: (TxState, TxCommand))
        ensures
            carries_out(a, r.0, r.1),
    {
        match a {
            TxAction::Finish(o) => (TxState::Done, TxCommand::Reply(self.reply_for(o))),
            TxAction::ParseEventInput { json } => (TxState::AwaitingInput, TxCommand::Parse { json }),
            TxAction::PutState { key, value, event_id } => (
                TxState::AwaitingWrite { event_id },
                TxCommand::PutState { key, value },
            ),
            TxAction::GetState { key, event_id } => (
                TxState::AwaitingRead { event_id },
                TxCommand::GetState { key },
            ),
            TxAction::GetStateByRange { start_key, end_key } => (
                TxState::AwaitingRange,
                TxCommand::GetStateByRange { start_key, end_key },
            ),
        }
    }

    /// The final reply of an outcome.
    fn end_with(&self, o: TxOutcome) -> (r: (TxState, TxCommand))
        ensures
            ends_with(o, r.0, r.1),
    {
        (TxState::Done, TxCommand::Reply(self.reply_for(o)))
    }

    /// One step of a transaction: what it does on `event` from `state`, and
    /// where it then stands. The program that runs the chaincode starts each
    /// transaction at `TxState::Start` with its input, performs each command,
    /// and hands back what came of it, until the final reply.
    pub fn tx_step(&self, state: TxState, event: TxEvent) -> (r: (TxState, TxCommand))
        ensures
            tx_step_result(state, event, r.0, r.1),
    {
        match state {
            TxState::Start => match event {
                TxEvent::Input(Err(m)) => {
                    let o = self.input_undecodable(m.as_str());
                    let ghost go = o;
                    let r = self.end_with(o);
                    assert(ends_with(go, r.0, r.1));
                    r
                },
                TxEvent::Input(Ok(args)) => {
                    let a = self.begin_transaction(&args);
                    let ghost ga = a;
                    let r = self.carry_out(a);
                    assert(carries_out(ga, r.0, r.1));
                    r
                },
                _ => (TxState::Start, TxCommand::Ignore),
            },
            TxState::AwaitingInput => match event {
                TxEvent::Parsed(input, now) => {
                    let a = self.continue_log_event(input, now);
                    let ghost ga = a;
                    let r = self.carry_out(a);
                    assert(carries_out(ga, r.0, r.1));
                    r
                },
                _ => (TxState::AwaitingInput, TxCommand::Ignore),
            },
            TxState::AwaitingWrite { event_id } => match event {
                TxEvent::Peer(reply) => {
                    let o = self.finish_log_event(&event_id, reply);
                    let ghost go = o;
                    let r = self.end_with(o);
                    assert(ends_with(go, r.0, r.1));
                    r
                },
                _ => (TxState::AwaitingWrite { event_id }, TxCommand::Ignore),
            },
            TxState::AwaitingRead { event_id } => match event {
                TxEvent::Peer(reply) => {
                    let o = self.finish_query_event(&event_id, reply);
                    let ghost go = o;
                    let r = self.end_with(o);
                    assert(ends_with(go, r.0, r.1));
                    r
                },
                _ => (TxState::AwaitingRead { event_id }, TxCommand::Ignore),
            },
            TxState::AwaitingRange => match event {
                TxEvent::Range(reply) => {
                    let o = self.finish_get_all_events(reply);
                    let ghost go = o;
                    let r = self.end_with(o);
                    assert(ends_with(go, r.0, r.1));
                    r
                },
                _ => (TxState::AwaitingRange, TxCommand::Ignore),
            },
            TxState::Done => (TxState::Done, TxCommand::Ignore),
        }
    }

    /// The message that ends a transaction: an ERROR carrying the message for
    /// a status of 400 or more, otherwise a COMPLETED response.
    pub fn reply_for(&self, outcome: TxOutcome) -> (r: ShimReply)
        ensures
            reply_result(outcome, r),
    {
        if outcome.status >= 400 {
            ShimReply::Error(utf8_bytes(outcome.message.as_str()))
        } else {
            ShimReply::Completed(outcome)
        }
    }
}

} // verus!

verus! {

/// Key `a` comes strictly before key `b` in the lexicographic order of the
/// world state.
pub open spec fn key_precedes(a: Seq<char>, b: Seq<char>) -> bool {
    exists|i: int|
        #![trigger a.take(i), b.take(i)]
        0 <= i <= a.len() && i <= b.len() && a.take(i) == b.take(i) && ((i == a.len() && i
            < b.len()) || (i < a.len() && i < b.len() && a[i] < b[i]))
}

/// Key `a` comes no later than key `b`.
pub open spec fn key_not_after(a: Seq<char>, b: Seq<char>) -> bool {
    a == b || key_precedes(a, b)
}

/// Every key under which `LogEvent` stores an event lies in the key range
/// that `GetAllEvents` reads, from "event_" (inclusive) to "event_g"
/// (exclusive): listing all events lists every logged one.
pub proof fn lemma_logged_keys_are_listed(
    source_mtu: Seq<u8>,
    rtu_id: Seq<char>,
    event_name: Seq<char>,
    event_timestamp: nat,
)
    ensures
        key_not_after("event_"@, event_key(event_id(source_mtu, rtu_id, event_name, event_timestamp))),
        key_precedes(event_key(event_id(source_mtu, rtu_id, event_name, event_timestamp)), "event_g"@),
{
    reveal_strlit("event_");
    reveal_strlit("event_g");
    let id = event_id(source_mtu, rtu_id, event_name, event_timestamp);
    let key = event_key(id);
    let start = "event_"@;
    let end = "event_g"@;
    crate::text::lemma_hex_lower_digits(
        crate::codec::sha256(
            vstd::utf8::encode_utf8(
                crate::mtu_event::canonical_id_text(source_mtu, rtu_id, event_name, event_timestamp),
            ),
        ),
    );
    assert(start.len() == 6);
    assert(key.take(6) =~= start);
    assert(start.take(6) =~= start);
    if id.len() == 0 {
        assert(key =~= start);
        assert(key.take(6) == end.take(6));
        assert(key_precedes(key, end));
    } else {
        assert(key_precedes(start, key)) by {
            assert(start.take(6) == key.take(6));
        }
        assert(key[6] == id[0]);
        assert(crate::text::is_hex_digit_char(id[0]));
        assert(end[6] == 'g');
        assert(key.take(6) =~= end.take(6));
        assert(key_precedes(key, end));
    }
}

/// A `QueryEvent` whose parameter is the ID that `LogEvent` answered with
/// (its UTF-8 bytes) reads the key under which `LogEvent` stored the event.
pub proof fn lemma_query_reads_logged_key(event_id: Seq<char>, args: Seq<Vec<u8>>, r: TxAction)
    requires
        begin_result(args, r),
        args.len() >= 2,
        function_name(args) == "QueryEvent"@,
        args[1]@ == encode_utf8(event_id),
    ensures
        r matches TxAction::GetState { key, event_id: id } && id@ == event_id && key@ == event_key(
            event_id,
        ),
{
    crate::text::lemma_lossy_of_utf8(event_id);
}

} // verus!

verus! {

/// How far a transaction has gone: 0 before its input is read, 1 while its
/// request is parsed, 2 while the peer answers a state request, 3 once the
/// final reply is out.
pub open spec fn tx_stage(s: TxState) -> int {
    match s {
        TxState::Start => 0,
        TxState::AwaitingInput => 1,
        TxState::AwaitingWrite { .. } => 2,
        TxState::AwaitingRead { .. } => 2,
        TxState::AwaitingRange => 2,
        TxState::Done => 3,
    }
}

/// A `LogEvent` call with its request argument.
pub open spec fn is_log_event_call(args: Seq<Vec<u8>>) -> bool {
    args.len() >= 2 && function_name(args) == "LogEvent"@
}

/// Whether `event` is what a transaction in `state` waits for.
pub open spec fn tx_answers(state: TxState, event: TxEvent) -> bool {
    match state {
        TxState::Start => event is Input,
        TxState::AwaitingInput => event is Parsed,
        TxState::AwaitingWrite { .. } => event is Peer,
        TxState::AwaitingRead { .. } => event is Peer,
        TxState::AwaitingRange => event is Range,
        TxState::Done => false,
    }
}

/// The write that a step asks for, if any, comes from a valid `LogEvent`
/// request: the event is stored, stamped with the ledger time, under its key.
pub open spec fn writes_valid_event(event: TxEvent, c: TxCommand) -> bool {
    c matches TxCommand::PutState { key, value } ==> (event matches TxEvent::Parsed(Ok(i), now)
        && creation_error(
        decoded_source(i.source_mtu@),
        i.rtu_id@,
        i.event_name@,
        i.event_description@,
    ) is None && key@ == event_key(
        event_id(decoded_source(i.source_mtu@), i.rtu_id@, i.event_name@, i.event_timestamp as nat),
    ) && value@ == encode_utf8(
        event_text(
            event_id(
                decoded_source(i.source_mtu@),
                i.rtu_id@,
                i.event_name@,
                i.event_timestamp as nat,
            ),
            decoded_source(i.source_mtu@),
            i.rtu_id@,
            i.event_name@,
            i.event_description@,
            i.event_timestamp,
            Some(now),
        ),
    ))
}

/// A run of a transaction: the states it passes through, the events that
/// came to it and the commands it gave, each step as `tx_step` takes it,
/// from the start.
pub open spec fn tx_run(states: Seq<TxState>, events: Seq<TxEvent>, commands: Seq<TxCommand>) -> bool {
    &&& states.len() == events.len() + 1
    &&& commands.len() == events.len()
    &&& states[0] == TxState::Start
    &&& forall|i: int|
        #![trigger commands[i]]
        0 <= i < events.len() ==> tx_step_result(states[i], events[i], states[i + 1], commands[i])
}

/// A transaction never goes back; a step that it was not waiting for changes
/// nothing; any other step moves it forward, and it issues exactly the
/// request that the new state waits for, or the final reply on reaching the
/// end; after the end it does nothing more.
pub proof fn lemma_tx_step_moves_forward(state: TxState, event: TxEvent, next: TxState, c: TxCommand)
    requires
        tx_step_result(state, event, next, c),
    ensures
        c is Ignore ==> next == state,
        !(c is Ignore) ==> tx_stage(next) > tx_stage(state),
        tx_answers(state, event) ==> !(c is Ignore),
        c is Reply <==> (next is Done && !(state is Done)),
        c is Parse <==> (next is AwaitingInput && !(state is AwaitingInput)),
        c is PutState <==> next is AwaitingWrite && !(state is AwaitingWrite),
        c is GetState <==> next is AwaitingRead && !(state is AwaitingRead),
        c is GetStateByRange <==> next is AwaitingRange && !(state is AwaitingRange),
        c is PutState ==> state is AwaitingInput,
        writes_valid_event(event, c),
        next is AwaitingInput ==> (state is AwaitingInput || (state is Start && (
        event matches TxEvent::Input(Ok(args)) && is_log_event_call(args@)))),
{
}

/// The stage of a run never goes back.
proof fn lemma_tx_stage_monotone(
    states: Seq<TxState>,
    events: Seq<TxEvent>,
    commands: Seq<TxCommand>,
    i: int,
    j: int,
)
    requires
        tx_run(states, events, commands),
        0 <= i <= j <= events.len(),
    ensures
        tx_stage(states[i]) <= tx_stage(states[j]),
    decreases j - i,
{
    if i < j {
        assert(tx_step_result(states[j - 1], events[j - 1], states[j], commands[j - 1]));
        lemma_tx_step_moves_forward(states[j - 1], events[j - 1], states[j], commands[j - 1]);
        lemma_tx_stage_monotone(states, events, commands, i, j - 1);
    }
}

/// A run that has ended sent a final reply on the way.
proof fn lemma_tx_done_was_replied(
    states: Seq<TxState>,
    events: Seq<TxEvent>,
    commands: Seq<TxCommand>,
    k: int,
)
    requires
        tx_run(states, events, commands),
        0 <= k <= events.len(),
        states[k] is Done,
    ensures
        exists|i: int| 0 <= i < k && #[trigger] commands[i] is Reply,
    decreases k,
{
    if k > 0 {
        assert(tx_step_result(states[k - 1], events[k - 1], states[k], commands[k - 1]));
        lemma_tx_step_moves_forward(states[k - 1], events[k - 1], states[k], commands[k - 1]);
        if states[k - 1] is Done {
            lemma_tx_done_was_replied(states, events, commands, k - 1);
            let i = choose|i: int| 0 <= i < k - 1 && #[trigger] commands[i] is Reply;
            assert(commands[i] is Reply);
        } else {
            assert(commands[k - 1] is Reply);
        }
    }
}

/// A run that waits for a parsed request began as a `LogEvent` call.
proof fn lemma_tx_parsing_began_with_log_event(
    states: Seq<TxState>,
    events: Seq<TxEvent>,
    commands: Seq<TxCommand>,
    k: int,
)
    requires
        tx_run(states, events, commands),
        0 <= k <= events.len(),
        states[k] is AwaitingInput,
    ensures
        exists|i: int|
            0 <= i < k && (#[trigger] events[i] matches TxEvent::Input(Ok(args)) && is_log_event_call(
                args@,
            )),
    decreases k,
{
    if k > 0 {
        assert(tx_step_result(states[k - 1], events[k - 1], states[k], commands[k - 1]));
        lemma_tx_step_moves_forward(states[k - 1], events[k - 1], states[k], commands[k - 1]);
        if states[k - 1] is AwaitingInput {
            lemma_tx_parsing_began_with_log_event(states, events, commands, k - 1);
            let i = choose|i: int|
                0 <= i < k - 1 && (#[trigger] events[i] matches TxEvent::Input(Ok(args))
                    && is_log_event_call(args@));
            assert(events[i] matches TxEvent::Input(Ok(args)) && is_log_event_call(args@));
        } else {
            assert(events[k - 1] matches TxEvent::Input(Ok(args)) && is_log_event_call(args@));
        }
    }
}

/// Each transaction gets exactly one final reply: after it, the transaction
/// sends nothing more (no state request comes after the reply), and a
/// transaction that has ended sent it.
pub proof fn lemma_tx_one_final_reply(
    states: Seq<TxState>,
    events: Seq<TxEvent>,
    commands: Seq<TxCommand>,
)
    requires
        tx_run(states, events, commands),
    ensures
        forall|i: int, j: int|
            0 <= i < j < events.len() && #[trigger] commands[i] is Reply ==> #[trigger] commands[j] is Ignore,
        states[events.len() as int] is Done ==> exists|i: int|
            0 <= i < events.len() && #[trigger] commands[i] is Reply,
{
    assert forall|i: int, j: int|
        0 <= i < j < events.len() && #[trigger] commands[i] is Reply implies #[trigger] commands[j] is Ignore by {
        lemma_tx_step_moves_forward(states[i], events[i], states[i + 1], commands[i]);
        lemma_tx_stage_monotone(states, events, commands, i + 1, j);
        lemma_tx_step_moves_forward(states[j], events[j], states[j + 1], commands[j]);
    }
    if states[events.len() as int] is Done {
        lemma_tx_done_was_replied(states, events, commands, events.len() as int);
    }
}

/// A transaction writes to the world state at most once, and only for a
/// `LogEvent` call whose request parsed into a valid event: the write stores
/// that event's JSON, stamped with the ledger time, under its key.
pub proof fn lemma_tx_writes_once_for_valid_log_event(
    states: Seq<TxState>,
    events: Seq<TxEvent>,
    commands: Seq<TxCommand>,
)
    requires
        tx_run(states, events, commands),
    ensures
        forall|i: int, j: int|
            0 <= i < j < events.len() && #[trigger] commands[i] is PutState ==> !(
            #[trigger] commands[j] is PutState),
        forall|j: int|
            0 <= j < events.len() && #[trigger] commands[j] is PutState ==> writes_valid_event(
                events[j],
                commands[j],
            ) && exists|i: int|
                0 <= i < j && (#[trigger] events[i] matches TxEvent::Input(Ok(args))
                    && is_log_event_call(args@)),
{
    assert forall|i: int, j: int|
        0 <= i < j < events.len() && #[trigger] commands[i] is PutState implies !(
        #[trigger] commands[j] is PutState) by {
        lemma_tx_step_moves_forward(states[i], events[i], states[i + 1], commands[i]);
        lemma_tx_stage_monotone(states, events, commands, i + 1, j);
        lemma_tx_step_moves_forward(states[j], events[j], states[j + 1], commands[j]);
    }
    assert forall|j: int| 0 <= j < events.len() && #[trigger] commands[j] is PutState implies writes_valid_event(
        events[j],
        commands[j],
    ) && exists|i: int|
        0 <= i < j && (#[trigger] events[i] matches TxEvent::Input(Ok(args)) && is_log_event_call(
            args@,
        )) by {
        lemma_tx_step_moves_forward(states[j], events[j], states[j + 1], commands[j]);
        lemma_tx_parsing_began_with_log_event(states, events, commands, j);
    }
}

/// Listing goes value by value: the listing of two runs of stored values one
/// after the other is the listing of the first followed by that of the
/// second.
pub proof fn lemma_listing_concat(a: Seq<Option<Vec<u8>>>, b: Seq<Option<Vec<u8>>>)
    ensures
        listed_values(a + b) == listed_values(a) + listed_values(b),
    decreases b.len(),
{
    if b.len() == 0 {
        assert(a + b =~= a);
        assert(listed_values(a) + listed_values(b) =~= listed_values(a));
    } else {
        lemma_listing_concat(a, b.drop_last());
        assert((a + b).drop_last() =~= a + b.drop_last());
        assert((a + b).last() == b.last());
        assert(listed_values(a + b) =~= listed_values(a) + listed_values(b));
    }
}

/// One stored value is listed, as serde_json writes it back, exactly when it
/// parses as JSON; an entry that did not decode is left out.
pub proof fn lemma_listing_one(value: Option<Vec<u8>>)
    ensures
        listed_values(seq![value]) == match value {
            Some(v) => match json_value_text(utf8_lossy(v@)) {
                Some(t) => seq![t],
                None => Seq::<Seq<char>>::empty(),
            },
            None => Seq::<Seq<char>>::empty(),
        },
{
    let s = seq![value];
    assert(s.drop_last() =~= Seq::<Option<Vec<u8>>>::empty());
    assert(listed_values(s.drop_last()) =~= Seq::<Seq<char>>::empty());
    assert(s.last() == value);
    assert(listed_values(s) =~= match value {
        Some(v) => match json_value_text(utf8_lossy(v@)) {
            Some(t) => seq![t],
            None => Seq::<Seq<char>>::empty(),
        },
        None => Seq::<Seq<char>>::empty(),
    });
}

/// A stored entry that decoded and whose value parses as JSON.
pub open spec fn parses_as_json(value: Option<Vec<u8>>) -> bool {
    value matches Some(v) && json_value_text(utf8_lossy(v@)) is Some
}

/// Every stored value that parses as JSON is listed: when all of them parse,
/// the listing has one entry per value, in order, each the value's JSON.
pub proof fn lemma_listing_keeps_every_parsable_value(values: Seq<Option<Vec<u8>>>)
    requires
        forall|i: int| 0 <= i < values.len() ==> parses_as_json(#[trigger] values[i]),
    ensures
        listed_values(values).len() == values.len(),
        forall|i: int|
            0 <= i < values.len() ==> Some(#[trigger] listed_values(values)[i]) == json_value_text(
                utf8_lossy(values[i]->Some_0@),
            ),
    decreases values.len(),
{
    if values.len() > 0 {
        let prev = values.drop_last();
        assert forall|i: int| 0 <= i < prev.len() implies parses_as_json(#[trigger] prev[i]) by {
            assert(prev[i] == values[i]);
        }
        lemma_listing_keeps_every_parsable_value(prev);
        assert(parses_as_json(values[values.len() - 1]));
        assert forall|i: int| 0 <= i < values.len() implies Some(
            #[trigger] listed_values(values)[i],
        ) == json_value_text(utf8_lossy(values[i]->Some_0@)) by {
            if i < prev.len() {
                assert(values[i] == prev[i]);
            }
        }
    }
}

/// Joining two non-empty runs of texts by commas joins the two joined runs
/// with one more comma: every text is kept, in order.
pub proof fn lemma_comma_joined_concat(a: Seq<Seq<char>>, b: Seq<Seq<char>>)
    requires
        a.len() > 0,
        b.len() > 0,
    ensures
        comma_joined(a + b) == comma_joined(a) + seq![','] + comma_joined(b),
    decreases b.len(),
{
    if b.len() == 1 {
        assert((a + b).drop_last() =~= a);
        assert((a + b).last() == b[0]);
        assert(comma_joined(b) == b[0]);
    } else {
        let b1 = b.drop_last();
        lemma_comma_joined_concat(a, b1);
        assert((a + b).drop_last() =~= a + b1);
        assert((a + b).last() == b.last());
        assert(comma_joined(a + b) =~= comma_joined(a) + seq![','] + comma_joined(b));
    }
}

/// A single text joined by commas is the text itself.
pub proof fn lemma_comma_joined_one(t: Seq<char>)
    ensures
        comma_joined(seq![t]) == t,
{
}

} // verus!
