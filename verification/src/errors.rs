//! The error taxonomy of the feed pipeline. A gap in the update-id
//! sequence is not an error: it is reported as a reconnect outcome.

use crate::decimal::DecimalParseError;
use vstd::prelude::*;

verus! {

/// Why a message was skipped.
#[derive(Clone, Copy, PartialEq, Eq, Structural, Debug)]
pub enum FeedError {
    /// A field the message kind requires is missing.
    MalformedMessage,
    /// A price, volume or other decimal field did not parse.
    DecimalParse(DecimalParseError),
    /// A ticker delta arrived for a symbol with no cached snapshot.
    MissingSnapshot,
    /// The message type is neither a snapshot nor a delta.
    UnknownType,
}

} // verus!
