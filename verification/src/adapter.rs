//! The type-erased channel adapter.
//!
//! A registry keyed by name must hold heterogeneously-typed channels behind
//! one interface. Each adapter wraps one strongly-typed sending endpoint
//! and is permanently bound to that endpoint's concrete value type; a send
//! through the erased interface first attempts a runtime recovery of the
//! bound type, and a mismatch is a wiring bug surfaced loudly as
//! `DowncastMismatch` — never a silent drop.

use vstd::prelude::*;
use crate::channel::channel_send;
use crate::errors::BusError;

verus! {

/// A typed sending endpoint behind a runtime-checked, type-erased
/// interface, bound at construction to exactly one concrete value type.
#[verifier::reject_recursive_types(T)]
pub struct ChannelAdapter<T> {
    pub sender: tokio::sync::mpsc::UnboundedSender<T>,
    pub expected_type_name: &'static str,
}

impl<T: core::any::Any + Clone> ChannelAdapter<T> {
    /// Binds a typed sending endpoint behind the erased interface. The
    /// label is recorded for mismatch reports and is by convention the
    /// name of the bound value type.
    pub fn bind(sender: tokio::sync::mpsc::UnboundedSender<T>, type_label: &'static str) -> (r:
        ChannelAdapter<T>)
        ensures
            r.sender == sender,
            r.expected_type_name == type_label,
    {
        ChannelAdapter { sender, expected_type_name: type_label }
    }

    /// What a type-erased send does once recovery has been decided: a
    /// recovered value is forwarded into the typed channel and the call
    /// succeeds; a failed recovery sends nothing and reports the mismatch,
    /// carrying the name of the type this adapter is bound to.
    pub fn deliver_recovered(&self, recovered: Option<T>) -> (r: Result<(), BusError>)
        ensures
            recovered is Some ==> r is Ok,
            recovered is None ==> r == Err::<(), BusError>(
                BusError::DowncastMismatch { expected_type_name: self.expected_type_name },
            ),
    {
        match recovered {
            Some(value) => {
                let _accepted = channel_send(&self.sender, value);
                Ok(())
            },
            None => Err(BusError::DowncastMismatch { expected_type_name: self.expected_type_name }),
        }
    }

    /// Attempts to recover this adapter's bound type from a value of
    /// arbitrary concrete type and forward it; the outcome is exactly
    /// `deliver_recovered` of the recovery result.
    pub fn send_any<U: core::any::Any>(&self, value: &U) -> (r: Result<(), BusError>)
        ensures
            r matches Err(e) ==> e == (BusError::DowncastMismatch {
                expected_type_name: self.expected_type_name,
            }),
    {
        let recovered: Option<T> = match downcast_ref_as::<T, U>(value) {
            Some(v) => Some(v.clone()),
            None => None,
        };
        self.deliver_recovered(recovered)
    }
}

/// Relies on `core::any::Any::downcast_ref`: yields a reference to the
/// value exactly when its concrete type is `T`, and nothing otherwise.
#[verifier::external_body]
fn downcast_ref_as<'a, T: core::any::Any, U: core::any::Any>(value: &'a U) -> (r: Option<&'a T>) {
    (value as &dyn core::any::Any).downcast_ref::<T>()
}

} // verus!
