//! Trusted boundary to the channel collaborator.
//!
//! Subscriber inboxes are unbounded multi-producer single-consumer channels;
//! enqueuing never blocks, so publishing stays a synchronous operation. The
//! bus only ever creates channel pairs and enqueues into the sending halves;
//! receiving halves are handed back to the embedding runtime, which drives
//! each subscriber's handler loop over its inbox.

use vstd::prelude::*;

verus! {

#[verifier::external_type_specification]
#[verifier::external_body]
#[verifier::reject_recursive_types(T)]
pub struct ExUnboundedSender<T>(tokio::sync::mpsc::UnboundedSender<T>);

#[verifier::external_type_specification]
#[verifier::external_body]
#[verifier::reject_recursive_types(T)]
pub struct ExUnboundedReceiver<T>(tokio::sync::mpsc::UnboundedReceiver<T>);

/// Relies on `tokio::sync::mpsc::unbounded_channel`: returns the sending and
/// receiving halves of a fresh, empty, unbounded channel.
#[verifier::external_body]
pub(crate) fn channel_pair<T>() -> (r: (
    tokio::sync::mpsc::UnboundedSender<T>,
    tokio::sync::mpsc::UnboundedReceiver<T>,
)) {
    tokio::sync::mpsc::unbounded_channel()
}

/// Relies on `tokio::sync::mpsc::UnboundedSender::send`: enqueues the value
/// without blocking and reports whether the receiving half was still open;
/// a value offered to a closed channel is dropped.
#[verifier::external_body]
pub(crate) fn channel_send<T>(tx: &tokio::sync::mpsc::UnboundedSender<T>, value: T) -> (delivered:
    bool) {
    tx.send(value).is_ok()
}

} // verus!
