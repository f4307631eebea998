//! The inbound dispatcher: decodes a datagram and routes it to the registry.
//!
//! An `introduce` registers the sender; a `time_report` records the
//! response (auto-registering an unknown sender in the same step) and hands
//! the reported time back to the caller, so that a coordinator awaiting a
//! reply from that address can take it up. Every other payload — the
//! master's own message kinds, unrecognized kinds, and undecodable bytes —
//! leaves the registry untouched; the receive loop never stops over one
//! datagram.

use crate::codec::{decode, decode_spec, DecodeError, Message};
use crate::slave_management::{upsert_model, NodeState, Registry};
use vstd::prelude::*;

verus! {

/// What the dispatcher did with one datagram.
#[derive(Clone, Copy, Debug, PartialEq, Eq, Structural)]
pub enum HandleOutcome {
    /// An `introduce`: the sender is registered or refreshed.
    Introduced,
    /// A `time_report`: the sender's record is refreshed and this is its
    /// reported clock reading, for the coordinator's pending exchange.
    Reported { time: i64 },
    /// A well-formed message that asks nothing of the master.
    Ignored,
    /// An undecodable payload, dropped without a state change.
    Invalid { error: DecodeError },
}

/// The outcome the dispatcher reports for a decoded payload.
pub open spec fn outcome_model(d: Result<Message, DecodeError>) -> HandleOutcome {
    match d {
        Ok(Message::Introduce) => HandleOutcome::Introduced,
        Ok(Message::TimeReport { time }) => HandleOutcome::Reported { time },
        Ok(Message::RequestTime) => HandleOutcome::Ignored,
        Ok(Message::AdjustTime { adjustment }) => HandleOutcome::Ignored,
        Ok(Message::Unrecognized) => HandleOutcome::Ignored,
        Err(e) => HandleOutcome::Invalid { error: e },
    }
}

/// What a decoded payload from `a`, processed at `now`, does to the
/// registry's map view.
pub open spec fn dispatch_model(
    m: Map<Seq<char>, NodeState>,
    a: Seq<char>,
    d: Result<Message, DecodeError>,
    now: i64,
) -> Map<Seq<char>, NodeState> {
    match d {
        Ok(Message::Introduce) => upsert_model(m, a, now),
        Ok(Message::TimeReport { time }) => upsert_model(m, a, now),
        _ => m,
    }
}

/// Decodes one datagram from `address` and applies it to the registry as of
/// clock reading `now`.
pub fn dispatch_message(registry: &mut Registry, msg: &str, address: String, now: i64) -> (r:
    HandleOutcome)
    requires
        old(registry).wf(),
    ensures
        final(registry).wf(),
        r == outcome_model(decode_spec(msg@)),
        final(registry)@ == dispatch_model(old(registry)@, address@, decode_spec(msg@), now),
{
    match decode(msg) {
        Ok(Message::Introduce) => {
            registry.upsert_introduction(address, now);
            HandleOutcome::Introduced
        },
        Ok(Message::TimeReport { time }) => {
            registry.record_response(address, time, now);
            HandleOutcome::Reported { time }
        },
        Ok(Message::RequestTime) => HandleOutcome::Ignored,
        Ok(Message::AdjustTime { adjustment: _ }) => HandleOutcome::Ignored,
        Ok(Message::Unrecognized) => HandleOutcome::Ignored,
        Err(e) => HandleOutcome::Invalid { error: e },
    }
}

/// Decodes one datagram from `address` and applies it to the registry at
/// the current clock reading, as [`dispatch_message`] does at a given one.
pub fn handle_message(registry: &mut Registry, msg: &str, address: String) -> (r: HandleOutcome)
    requires
        old(registry).wf(),
    ensures
        final(registry).wf(),
        r == outcome_model(decode_spec(msg@)),
        exists|t: i64|
            final(registry)@ == dispatch_model(old(registry)@, address@, decode_spec(msg@), t),
{
    let now = crate::clock::now_millis();
    dispatch_message(registry, msg, address, now)
}

} // verus!
