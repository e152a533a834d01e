//! Error taxonomy of the bus.
//!
//! Failures that indicate misconfiguration (a payload that cannot be encoded
//! or decoded, a type-erased send of the wrong concrete type) are surfaced to
//! the immediate caller. A closed subscriber inbox is deliberately *not* an
//! error: publishing is fire-and-forget, and dropped deliveries are reported
//! only through the counts that `Spine::publish` returns.

use vstd::prelude::*;

verus! {

/// An error surfaced by envelope construction, payload parsing, or a
/// type-erased send.
#[derive(Clone, Debug, PartialEq)]
pub enum BusError {
    /// The value could not be serialized; carries the codec's message.
    /// Fails envelope construction immediately.
    Encoding(String),
    /// The payload bytes do not match the requested target type; carries the
    /// codec's message. Surfaced to the caller of `parse`, never swallowed.
    Decoding(String),
    /// A type-erased adapter was handed a value of the wrong concrete type;
    /// carries the name of the type the adapter is bound to. Signals a
    /// wiring bug, so it is propagated rather than swallowed.
    DowncastMismatch { expected_type_name: &'static str },
}

impl BusError {
    /// True exactly for the encoding-failure variant.
    pub open spec fn is_encoding(&self) -> bool {
        self is Encoding
    }

    /// True exactly for the decoding-failure variant.
    pub open spec fn is_decoding(&self) -> bool {
        self is Decoding
    }
}

} // verus!
