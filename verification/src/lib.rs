//! An in-process publish/subscribe message bus.
//!
//! Messages travel as immutable envelopes carrying an interned identifier and
//! a size-classed byte payload; a dispatch core fans each published envelope
//! out to every subscriber registered for its identifier, in registration
//! order, through per-subscriber inboxes.

pub mod adapter;
pub mod bus;
pub mod channel;
pub mod errors;
pub mod ident;
pub mod payload;
pub mod registry;
pub mod routing;

