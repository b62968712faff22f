//! Events that a user submits: built from options, or from a partial
//! description whose gaps are filled with defaults.

use vstd::prelude::*;
use crate::event::{
    event_type_of_lower, parse_event_type, parse_severity, severity_of_lower, EventDetails,
    EventType, InputError, SecurityEvent, Severity,
};
use crate::metadata::Metadata;
use crate::text::lowercase_text;
use crate::time::Timestamp;

verus! {

/// The text of an optional description, `default` where there is none.
pub open spec fn text_or(value: Option<String>, default: Seq<char>) -> Seq<char> {
    match value {
        Some(s) => s@,
        None => default,
    }
}

/// Builds an event from the options of the command line. An event without
/// description is a `Custom message`.
pub fn create_event_from_options(
    event_type: EventType,
    severity: Severity,
    path: String,
    description: Option<String>,
    metadata: Metadata,
    now: Timestamp,
) -> (ev: SecurityEvent)
    ensures
        ev.timestamp.spec_secs() == now.spec_secs(),
        ev.timestamp.spec_nanos() == now.spec_nanos(),
        ev.event_type == event_type,
        ev.path == path,
        ev.details.severity == severity,
        ev.details.description@ == text_or(description, "Custom message"@),
        ev.details.metadata == metadata,
{
    let description = match description {
        Some(d) => d,
        None => "Custom message".to_owned(),
    };
    SecurityEvent {
        timestamp: now,
        event_type,
        path,
        details: EventDetails { severity, description, metadata },
    }
}

/// An event that is described in part only.
#[derive(Debug)]
pub struct PartialEvent {
    pub event_type: Option<String>,
    pub severity: Option<String>,
    pub path: Option<String>,
    pub description: Option<String>,
    pub metadata: Option<Metadata>,
}

/// The kind that a partial event asks for: `CustomMessage` where it names
/// none, nothing where it names one that does not exist.
pub open spec fn partial_event_type(name: Option<String>) -> Option<EventType> {
    match name {
        Some(n) => event_type_of_lower(lowercase_text(n@)),
        None => Some(EventType::CustomMessage),
    }
}

/// The severity that a partial event asks for: `Medium` where it names
/// none, nothing where it names one that does not exist.
pub open spec fn partial_severity(name: Option<String>) -> Option<Severity> {
    match name {
        Some(n) => severity_of_lower(lowercase_text(n@)),
        None => Some(Severity::Medium),
    }
}

/// Completes a partial event at `now`. The kind is read first: an unknown
/// kind is reported even where the severity is unknown too.
pub fn complete_partial_event(partial: PartialEvent, now: Timestamp) -> (r: Result<
    SecurityEvent,
    InputError,
>)
    ensures
        match (partial_event_type(partial.event_type), partial_severity(partial.severity)) {
            (Some(t), Some(s)) => {
                &&& r is Ok
                &&& r->Ok_0.timestamp.spec_secs() == now.spec_secs()
                &&& r->Ok_0.timestamp.spec_nanos() == now.spec_nanos()
                &&& r->Ok_0.event_type == t
                &&& r->Ok_0.details.severity == s
                &&& r->Ok_0.path@ == text_or(partial.path, "/custom/json"@)
                &&& r->Ok_0.details.description@ == text_or(partial.description, "JSON message"@)
                &&& r->Ok_0.details.metadata@ == match partial.metadata {
                    Some(m) => m@,
                    None => Map::<Seq<char>, Seq<char>>::empty(),
                }
            },
            (None, _) => r is Err && r->Err_0 is InvalidEventType && r->Err_0.input()
                == partial.event_type.unwrap()@,
            (Some(_), None) => r is Err && r->Err_0 is InvalidSeverity && r->Err_0.input()
                == partial.severity.unwrap()@,
        },
{
    let event_type = match &partial.event_type {
        Some(name) => match parse_event_type(name.as_str()) {
            Ok(t) => t,
            Err(e) => {
                return Err(e);
            },
        },
        None => EventType::CustomMessage,
    };
    let severity = match &partial.severity {
        Some(name) => match parse_severity(name.as_str()) {
            Ok(s) => s,
            Err(e) => {
                return Err(e);
            },
        },
        None => Severity::Medium,
    };
    let path = match partial.path {
        Some(p) => p,
        None => "/custom/json".to_owned(),
    };
    let description = match partial.description {
        Some(d) => d,
        None => "JSON message".to_owned(),
    };
    let metadata = match partial.metadata {
        Some(m) => m,
        None => Metadata::new(),
    };
    Ok(
        SecurityEvent {
            timestamp: now,
            event_type,
            path,
            details: EventDetails { severity, description, metadata },
        },
    )
}

} // verus!
