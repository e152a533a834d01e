//! The dispatch core: owns the routing table and the subscriber registry,
//! registers subscribers, and fans published envelopes out to their inboxes.
//!
//! Publishing is fire-and-forget: every subscriber resolved for the
//! envelope's identifier is attempted, in registration order, and a closed
//! inbox never fails the call nor stops delivery to the remaining
//! subscribers. The outcome counts make dropped deliveries observable
//! without ever raising them to the publisher.

use vstd::prelude::*;
use crate::channel::channel_pair;
use crate::channel::channel_send;
use crate::payload::Message;
use crate::registry::SubscriberRegistry;
use crate::routing::RoutingTable;
use crate::routing::extend_routes;
use crate::routing::resolve_of;

verus! {

/// Every subscriber named by the mapping is present in the registry.
pub open spec fn spec_covered(
    m: Map<Seq<char>, Seq<Seq<char>>>,
    reg: SubscriberRegistry,
) -> bool {
    forall|id: Seq<char>, k: int|
        m.contains_key(id) && 0 <= k < m[id].len() ==> reg.spec_contains(#[trigger] m[id][k])
}

/// Appending a registered name to one identifier's sequence preserves
/// registry coverage.
proof fn lemma_covered_insert(
    m: Map<Seq<char>, Seq<Seq<char>>>,
    reg: SubscriberRegistry,
    id: Seq<char>,
    name: Seq<char>,
)
    requires
        spec_covered(m, reg),
        reg.spec_contains(name),
    ensures
        spec_covered(m.insert(id, resolve_of(m, id).push(name)), reg),
{
    let m2 = m.insert(id, resolve_of(m, id).push(name));
    assert forall|id2: Seq<char>, k: int|
        m2.contains_key(id2) && 0 <= k < m2[id2].len() implies reg.spec_contains(
        #[trigger] m2[id2][k],
    ) by {
        if id2 == id {
            let v = resolve_of(m, id).push(name);
            if k < v.len() - 1 {
                assert(m.contains_key(id));
                assert(v[k] == m[id][k]);
            }
        } else {
            assert(m.contains_key(id2) && m2[id2] == m[id2]);
        }
    }
}

/// What a sequence of registrations builds, fold-wise: the registered
/// subscriber identifiers in order, and the routing mapping. A repeated
/// subscriber identifier is rejected and leaves no trace.
pub open spec fn spec_build(systems: Seq<(&'static str, Vec<&'static str>)>) -> (
    Seq<Seq<char>>,
    Map<Seq<char>, Seq<Seq<char>>>,
)
    decreases systems.len(),
{
    if systems.len() == 0 {
        (Seq::empty(), Map::empty())
    } else {
        let prev = spec_build(systems.drop_last());
        let nm = systems.last().0@;
        let subs = systems.last().1@.map_values(|s: &'static str| s@);
        if prev.0.contains(nm) {
            prev
        } else {
            (prev.0.push(nm), extend_routes(prev.1, subs, nm))
        }
    }
}

/// The outcome of one `publish` call: how many deliveries were attempted
/// (one per resolved subscriber) and how many inboxes accepted the
/// envelope. The difference counts deliveries dropped at closed inboxes —
/// observable here, never raised as an error.
#[derive(Clone, Copy, Debug, PartialEq, Eq, Structural)]
pub struct PublishOutcome {
    pub attempted: usize,
    pub delivered: usize,
}

/// The dispatch core: a routing table snapshot and the subscriber registry.
pub struct Spine {
    pub table: RoutingTable,
    pub registry: SubscriberRegistry,
}

impl Spine {
    /// Well-formedness: both parts are well-formed and every subscriber the
    /// table names is registered.
    pub open spec fn wf(&self) -> bool {
        &&& self.table.wf()
        &&& self.registry.wf()
        &&& spec_covered(self.table.spec_map(), self.registry)
    }

    /// A bus with no routes and no subscribers.
    pub fn empty() -> (r: Spine)
        ensures
            r.wf(),
            r.registry.spec_names() == Seq::<Seq<char>>::empty(),
            r.table.spec_map() == Map::<Seq<char>, Seq<Seq<char>>>::empty(),
    {
        Spine { table: RoutingTable::empty(), registry: SubscriberRegistry::new() }
    }

    /// Registers a subscriber: creates a fresh inbox channel, records the
    /// sending half under the subscriber's identifier, and appends the
    /// subscriber to each subscribed identifier's route, after all existing
    /// subscribers. The receiving half is returned for the embedding
    /// runtime to drive the subscriber's handler loop until the inbox
    /// closes. A subscriber identifier may be registered only once; a
    /// repeat is rejected and changes nothing.
    pub fn register(&mut self, name: &'static str, subscriptions: &Vec<&'static str>) -> (r:
        Option<tokio::sync::mpsc::UnboundedReceiver<Message>>)
        requires
            old(self).wf(),
        ensures
            final(self).wf(),
            old(self).registry.spec_contains(name@) ==> r is None && *final(self) == *old(self),
            !old(self).registry.spec_contains(name@) ==> {
                &&& r is Some
                &&& final(self).registry.spec_names() == old(self).registry.spec_names().push(
                    name@,
                )
                &&& final(self).table.spec_map() == extend_routes(
                    old(self).table.spec_map(),
                    subscriptions@.map_values(|s: &'static str| s@),
                    name@,
                )
            },
    {
        if self.registry.contains(name) {
            return None;
        }
        let (tx, rx) = channel_pair::<Message>();
        self.registry.insert(name, tx);
        let ghost subs_view = subscriptions@.map_values(|s: &'static str| s@);
        let ghost m0 = self.table.spec_map();
        proof {
            let names0 = old(self).registry.spec_names();
            let names1 = self.registry.spec_names();
            assert(names1[names1.len() - 1] == name@);
            assert(names1.contains(name@));
            assert forall|x: Seq<char>| names0.contains(x) implies names1.contains(x) by {
                let j = choose|j: int| 0 <= j < names0.len() && names0[j] == x;
                assert(names1[j] == x);
            }
            assert(spec_covered(m0, self.registry));
        }
        let mut i: usize = 0;
        while i < subscriptions.len()
            invariant
                i <= subscriptions@.len(),
                subs_view == subscriptions@.map_values(|s: &'static str| s@),
                self.table.wf(),
                self.registry.spec_names() == old(self).registry.spec_names().push(name@),
                self.registry.wf(),
                self.registry.spec_contains(name@),
                spec_covered(self.table.spec_map(), self.registry),
                self.table.spec_map() == extend_routes(m0, subs_view.take(i as int), name@),
            decreases subscriptions@.len() - i,
        {
            let ghost m_cur = self.table.spec_map();
            let sub = subscriptions[i];
            let new_table = self.table.with_route_appended(sub, name);
            proof {
                assert(sub@ == subs_view[i as int]);
                lemma_covered_insert(m_cur, self.registry, sub@, name@);
            }
            self.table = new_table;
            proof {
                let t1 = subs_view.take(i as int + 1);
                assert(t1.drop_last() =~= subs_view.take(i as int));
                assert(t1.last() == subs_view[i as int]);
                assert(self.table.spec_map() == extend_routes(m0, t1, name@));
            }
            i += 1;
        }
        proof {
            assert(subs_view.take(subs_view.len() as int) =~= subs_view);
        }
        Some(rx)
    }

    /// Builds a bus by registering each system in order: for each, a fresh
    /// inbox whose receiving half is returned, in registration order, for
    /// the embedding runtime to drive that system's handler. A repeated
    /// system identifier is skipped and gets no inbox.
    pub fn new(systems: Vec<(&'static str, Vec<&'static str>)>) -> (r: (
        Spine,
        Vec<tokio::sync::mpsc::UnboundedReceiver<Message>>,
    ))
        ensures
            r.0.wf(),
            r.0.registry.spec_names() == spec_build(systems@).0,
            r.0.table.spec_map() == spec_build(systems@).1,
            r.1@.len() == spec_build(systems@).0.len(),
    {
        let mut spine = Spine::empty();
        let mut inboxes: Vec<tokio::sync::mpsc::UnboundedReceiver<Message>> = Vec::new();
        let mut i: usize = 0;
        while i < systems.len()
            invariant
                i <= systems@.len(),
                spine.wf(),
                spine.registry.spec_names() == spec_build(systems@.take(i as int)).0,
                spine.table.spec_map() == spec_build(systems@.take(i as int)).1,
                inboxes@.len() == spec_build(systems@.take(i as int)).0.len(),
            decreases systems@.len() - i,
        {
            let name = systems[i].0;
            match spine.register(name, &systems[i].1) {
                Some(rx) => {
                    inboxes.push(rx);
                },
                None => {},
            }
            proof {
                let t1 = systems@.take(i as int + 1);
                assert(t1.drop_last() =~= systems@.take(i as int));
                assert(t1.last() == systems@[i as int]);
            }
            i += 1;
        }
        proof {
            assert(systems@.take(systems@.len() as int) =~= systems@);
        }
        (spine, inboxes)
    }

    /// Fans one envelope out: resolves its identifier against the current
    /// table snapshot and offers a copy to every resolved subscriber's
    /// inbox, in registration order. A closed inbox is skipped silently;
    /// the call never fails and later subscribers are still attempted.
    /// With no matching subscriber the call is a no-op.
    pub fn publish(&self, message: Message) -> (r: PublishOutcome)
        requires
            self.wf(),
        ensures
            r.attempted == self.table.spec_resolve(message.id@).len(),
            r.delivered <= r.attempted,
            self.table.spec_resolve(message.id@).len() == 0 ==> r.attempted == 0
                && r.delivered == 0,
    {
        let subscribers = self.table.resolve(message.id);
        let ghost resolved = self.table.spec_resolve(message.id@);
        let mut delivered: usize = 0;
        let mut i: usize = 0;
        while i < subscribers.len()
            invariant
                self.wf(),
                subscribers@.map_values(|s: &'static str| s@) == resolved,
                resolved == self.table.spec_resolve(message.id@),
                i <= subscribers@.len(),
                delivered <= i,
            decreases subscribers@.len() - i,
        {
            match self.registry.sender_for(subscribers[i]) {
                Some(tx) => {
                    let accepted = channel_send(tx, message.clone());
                    if accepted {
                        delivered += 1;
                    }
                },
                None => {},
            }
            i += 1;
        }
        PublishOutcome { attempted: subscribers.len(), delivered }
    }
}

} // verus!
