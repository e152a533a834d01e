//! The subscriber registry: subscriber identifier to inbox sender.
//!
//! Entries are created at registration and immutable thereafter; the
//! registry is append-only, and an entry whose inbox has closed is left in
//! place — sends to it are silently dropped, which is the documented policy
//! for torn-down subscribers.

use vstd::prelude::*;
use crate::ident::str_eq;
use crate::payload::Message;

verus! {

/// One entry: a subscriber identifier and the sending half of its inbox.
pub struct RegistryEntry {
    pub name: &'static str,
    pub sender: tokio::sync::mpsc::UnboundedSender<Message>,
}

/// Mapping from subscriber identifier to inbox sender, in registration
/// order.
pub struct SubscriberRegistry {
    pub entries: Vec<RegistryEntry>,
}

impl SubscriberRegistry {
    /// The registered subscriber identifiers, in registration order.
    pub open spec fn spec_names(&self) -> Seq<Seq<char>> {
        self.entries@.map_values(|e: RegistryEntry| e.name@)
    }

    /// Well-formedness: one entry per subscriber identifier.
    pub open spec fn wf(&self) -> bool {
        forall|i: int, j: int|
            0 <= i < j < self.spec_names().len() ==> self.spec_names()[i] != self.spec_names()[j]
    }

    /// Whether a subscriber identifier is registered.
    pub open spec fn spec_contains(&self, name: Seq<char>) -> bool {
        self.spec_names().contains(name)
    }

    /// An empty registry.
    pub fn new() -> (r: SubscriberRegistry)
        ensures
            r.wf(),
            r.spec_names() == Seq::<Seq<char>>::empty(),
    {
        let r = SubscriberRegistry { entries: Vec::new() };
        proof {
            assert(r.spec_names() =~= Seq::<Seq<char>>::empty());
        }
        r
    }

    /// Index of the entry for a subscriber identifier, if any.
    fn find_entry(&self, name: &str) -> (r: Option<usize>)
        ensures
            match r {
                Some(k) => k < self.entries@.len() && self.entries@[k as int].name@ == name@,
                None => !self.spec_contains(name@),
            },
    {
        let mut k: usize = 0;
        while k < self.entries.len()
            invariant
                k <= self.entries@.len(),
                forall|j: int| 0 <= j < k ==> self.entries@[j].name@ != name@,
            decreases self.entries@.len() - k,
        {
            if str_eq(self.entries[k].name, name) {
                return Some(k);
            }
            k += 1;
        }
        proof {
            assert forall|j: int| 0 <= j < self.spec_names().len() implies self.spec_names()[j]
                != name@ by {
                assert(self.entries@[j].name@ != name@);
            }
        }
        None
    }

    /// Whether a subscriber identifier is registered.
    pub fn contains(&self, name: &str) -> (r: bool)
        ensures
            r == self.spec_contains(name@),
    {
        match self.find_entry(name) {
            Some(k) => {
                proof {
                    assert(self.spec_names()[k as int] == name@);
                }
                true
            },
            None => false,
        }
    }

    /// Appends a fresh entry. Registration order is preserved: the new
    /// subscriber comes after every existing one.
    pub fn insert(&mut self, name: &'static str, sender: tokio::sync::mpsc::UnboundedSender<
        Message,
    >)
        requires
            old(self).wf(),
            !old(self).spec_contains(name@),
        ensures
            final(self).wf(),
            final(self).spec_names() == old(self).spec_names().push(name@),
    {
        self.entries.push(RegistryEntry { name, sender });
        proof {
            assert(self.spec_names() =~= old(self).spec_names().push(name@));
            assert forall|i: int, j: int| 0 <= i < j < self.spec_names().len() implies self
                .spec_names()[i] != self.spec_names()[j] by {
                if j == self.spec_names().len() - 1 {
                    assert(!old(self).spec_names().contains(name@));
                    assert(old(self).spec_names()[i] != name@);
                }
            }
        }
    }

    /// The inbox sender for a subscriber identifier, when registered.
    pub fn sender_for(&self, name: &str) -> (r: Option<&tokio::sync::mpsc::UnboundedSender<
        Message,
    >>)
        ensures
            r is Some <==> self.spec_contains(name@),
    {
        match self.find_entry(name) {
            Some(k) => {
                proof {
                    assert(self.spec_names()[k as int] == name@);
                }
                Some(&self.entries[k].sender)
            },
            None => None,
        }
    }
}

} // verus!
