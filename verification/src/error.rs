//! Errors of event creation, validation and serialization.
use vstd::prelude::*;
use crate::text::push_str;

verus! {

/// Errors that can occur during RTU control event operations.
#[derive(Debug, Clone, PartialEq, Eq)]
pub enum Error {
    /// Source MTU field is empty or missing.
    MissingSourceMtu,
    /// RTU ID field is empty or missing.
    MissingRtuId,
    /// Event name field is empty or missing.
    MissingEventName,
    /// Event description field is empty or missing.
    MissingEventDescription,
    /// Event timestamp is invalid (e.g., in the future or far in the past).
    InvalidEventTimestamp,
    /// Failed to serialize event to JSON.
    SerializationError(String),
    /// Failed to deserialize event from JSON.
    DeserializationError(String),
    /// Failed to generate unique event ID.
    IdGenerationError(String),
}

/// Result type alias for event operations.
pub type Result<T> = core::result::Result<T, Error>;

/// How Rust's `Debug` formatting writes a string: quoted, with escapes.
pub uninterp spec fn rust_debug_string(s: Seq<char>) -> Seq<char>;

/// `format!("{:?}", s)`: the quoted, escaped form in which `Debug` writes a string.
#[verifier::external_body]
pub fn debug_string(s: &str) -> (r: String)
    ensures
        r@ == rust_debug_string(s@),
{
    format!("{:?}", s)
}

/// The human-readable message of an error.
pub open spec fn error_message(e: Error) -> Seq<char> {
    match e {
        Error::MissingSourceMtu => "source MTU is missing or empty"@,
        Error::MissingRtuId => "RTU ID is missing or empty"@,
        Error::MissingEventName => "event name is missing or empty"@,
        Error::MissingEventDescription => "event description is missing or empty"@,
        Error::InvalidEventTimestamp => "event timestamp is invalid"@,
        Error::SerializationError(m) => "serialization error: "@ + m@,
        Error::DeserializationError(m) => "deserialization error: "@ + m@,
        Error::IdGenerationError(m) => "failed to generate event ID: "@ + m@,
    }
}

/// How `Debug` writes an error: the variant's name, and for a variant with a
/// message, the message in `Debug` form between parentheses.
pub open spec fn error_debug(e: Error) -> Seq<char> {
    match e {
        Error::MissingSourceMtu => "MissingSourceMtu"@,
        Error::MissingRtuId => "MissingRtuId"@,
        Error::MissingEventName => "MissingEventName"@,
        Error::MissingEventDescription => "MissingEventDescription"@,
        Error::InvalidEventTimestamp => "InvalidEventTimestamp"@,
        Error::SerializationError(m) => "SerializationError("@ + rust_debug_string(m@) + ")"@,
        Error::DeserializationError(m) => "DeserializationError("@ + rust_debug_string(m@) + ")"@,
        Error::IdGenerationError(m) => "IdGenerationError("@ + rust_debug_string(m@) + ")"@,
    }
}

impl Error {
    /// The human-readable message of this error (what `Display` shows).
    pub fn message(&self) -> (r: String)
        ensures
            r@ == error_message(*self),
    {
        let mut s = String::new();
        match self {
            Error::MissingSourceMtu => push_str(&mut s, "source MTU is missing or empty"),
            Error::MissingRtuId => push_str(&mut s, "RTU ID is missing or empty"),
            Error::MissingEventName => push_str(&mut s, "event name is missing or empty"),
            Error::MissingEventDescription => push_str(
                &mut s,
                "event description is missing or empty",
            ),
            Error::InvalidEventTimestamp => push_str(&mut s, "event timestamp is invalid"),
            Error::SerializationError(m) => {
                push_str(&mut s, "serialization error: ");
                push_str(&mut s, m.as_str());
            },
            Error::DeserializationError(m) => {
                push_str(&mut s, "deserialization error: ");
                push_str(&mut s, m.as_str());
            },
            Error::IdGenerationError(m) => {
                push_str(&mut s, "failed to generate event ID: ");
                push_str(&mut s, m.as_str());
            },
        }
        s
    }

    /// This error as `Debug` writes it.
    pub fn debug_text(&self) -> (r: String)
        ensures
            r@ == error_debug(*self),
    {
        let mut s = String::new();
        match self {
            Error::MissingSourceMtu => push_str(&mut s, "MissingSourceMtu"),
            Error::MissingRtuId => push_str(&mut s, "MissingRtuId"),
            Error::MissingEventName => push_str(&mut s, "MissingEventName"),
            Error::MissingEventDescription => push_str(&mut s, "MissingEventDescription"),
            Error::InvalidEventTimestamp => push_str(&mut s, "InvalidEventTimestamp"),
            Error::SerializationError(m) => {
                push_str(&mut s, "SerializationError(");
                push_str(&mut s, debug_string(m.as_str()).as_str());
                push_str(&mut s, ")");
            },
            Error::DeserializationError(m) => {
                push_str(&mut s, "DeserializationError(");
                push_str(&mut s, debug_string(m.as_str()).as_str());
                push_str(&mut s, ")");
            },
            Error::IdGenerationError(m) => {
                push_str(&mut s, "IdGenerationError(");
                push_str(&mut s, debug_string(m.as_str()).as_str());
                push_str(&mut s, ")");
            },
        }
        s
    }
}

} // verus!
