//! The routing table: an immutable snapshot from message identifier to the
//! ordered subscribers registered for it.
//!
//! Reconfiguration never mutates a table in place: it builds a fresh table
//! value, so a publisher holding a snapshot always resolves against one
//! fully-formed configuration. Subscriber order within a route is
//! registration order, and extending a table only ever appends.

use vstd::prelude::*;
use vstd::map::*;
use crate::ident::str_eq;

verus! {

/// One route: a message identifier and the subscribers registered for it,
/// in registration order.
#[derive(Debug)]
pub struct Route {
    pub id: &'static str,
    pub subscribers: Vec<&'static str>,
}

impl Route {
    /// The subscriber identifiers of this route, as character sequences.
    pub open spec fn spec_subscribers(&self) -> Seq<Seq<char>> {
        self.subscribers@.map_values(|s: &'static str| s@)
    }
}

/// No two routes name the same message identifier.
pub open spec fn routes_unique(routes: Seq<Route>) -> bool {
    forall|i: int, j: int| 0 <= i < j < routes.len() ==> routes[i].id@ != routes[j].id@
}

/// The mapping a sequence of routes denotes.
pub open spec fn routes_map(routes: Seq<Route>) -> Map<Seq<char>, Seq<Seq<char>>>
    decreases routes.len(),
{
    if routes.len() == 0 {
        Map::empty()
    } else {
        routes_map(routes.drop_last()).insert(
            routes.last().id@,
            routes.last().spec_subscribers(),
        )
    }
}

/// The ordered subscribers a mapping holds for an identifier; empty when the
/// identifier has no route.
pub open spec fn resolve_of(m: Map<Seq<char>, Seq<Seq<char>>>, id: Seq<char>) -> Seq<Seq<char>> {
    if m.contains_key(id) {
        m[id]
    } else {
        Seq::empty()
    }
}

/// With distinct identifiers, the denoted mapping holds exactly the routes'
/// identifiers as keys, each bound to that route's subscriber sequence.
pub proof fn lemma_routes_map_props(routes: Seq<Route>)
    requires
        routes_unique(routes),
    ensures
        forall|id: Seq<char>|
            #[trigger] routes_map(routes).contains_key(id) <==> (exists|k: int|
                0 <= k < routes.len() && routes[k].id@ == id),
        forall|k: int|
            0 <= k < routes.len() ==> routes_map(routes).contains_key(#[trigger] routes[k].id@)
                && routes_map(routes)[routes[k].id@] == routes[k].spec_subscribers(),
    decreases routes.len(),
{
    if routes.len() > 0 {
        let prefix = routes.drop_last();
        assert(forall|k: int| 0 <= k < prefix.len() ==> prefix[k] == routes[k]);
        assert(routes_unique(prefix));
        lemma_routes_map_props(prefix);
        assert(routes_map(routes) == routes_map(prefix).insert(
            routes.last().id@,
            routes.last().spec_subscribers(),
        ));
        assert forall|id: Seq<char>| #[trigger] routes_map(routes).contains_key(id) implies (
        exists|k: int| 0 <= k < routes.len() && routes[k].id@ == id) by {
            if id == routes.last().id@ {
                assert(routes[routes.len() - 1].id@ == id);
            } else {
                assert(routes_map(prefix).contains_key(id));
                let k = choose|k: int| 0 <= k < prefix.len() && prefix[k].id@ == id;
                assert(prefix[k] == routes[k]);
                assert(routes[k].id@ == id);
            }
        }
        assert forall|id: Seq<char>| (exists|k: int|
            0 <= k < routes.len() && routes[k].id@ == id) implies #[trigger] routes_map(
            routes,
        ).contains_key(id) by {
            let k = choose|k: int| 0 <= k < routes.len() && routes[k].id@ == id;
            if k < routes.len() - 1 {
                assert(prefix[k].id@ == id);
            }
        }
        assert forall|k: int| 0 <= k < routes.len() implies routes_map(routes).contains_key(
            #[trigger] routes[k].id@,
        ) && routes_map(routes)[routes[k].id@] == routes[k].spec_subscribers() by {
            if k < routes.len() - 1 {
                assert(prefix[k].id@ == routes[k].id@);
                assert(routes[k].id@ != routes.last().id@);
            }
        }
    }
}

/// Immutable snapshot from message identifier to ordered subscribers.
#[derive(Debug)]
pub struct RoutingTable {
    pub routes: Vec<Route>,
}

impl RoutingTable {
    /// Well-formedness: one route per identifier.
    pub open spec fn wf(&self) -> bool {
        routes_unique(self.routes@)
    }

    /// The mapping this snapshot denotes.
    pub open spec fn spec_map(&self) -> Map<Seq<char>, Seq<Seq<char>>> {
        routes_map(self.routes@)
    }

    /// The ordered subscribers this snapshot holds for an identifier.
    pub open spec fn spec_resolve(&self, id: Seq<char>) -> Seq<Seq<char>> {
        resolve_of(self.spec_map(), id)
    }

    /// A table with no routes.
    pub fn empty() -> (r: RoutingTable)
        ensures
            r.wf(),
            r.spec_map() == Map::<Seq<char>, Seq<Seq<char>>>::empty(),
    {
        RoutingTable { routes: Vec::new() }
    }

    /// Index of the route for an identifier, if any.
    fn find_route(&self, id: &str) -> (r: Option<usize>)
        ensures
            match r {
                Some(k) => k < self.routes@.len() && self.routes@[k as int].id@ == id@,
                None => forall|k: int| 0 <= k < self.routes@.len() ==> self.routes@[k].id@ != id@,
            },
    {
        let mut k: usize = 0;
        while k < self.routes.len()
            invariant
                k <= self.routes@.len(),
                forall|j: int| 0 <= j < k ==> self.routes@[j].id@ != id@,
            decreases self.routes@.len() - k,
        {
            if str_eq(self.routes[k].id, id) {
                return Some(k);
            }
            k += 1;
        }
        None
    }

    /// The ordered subscribers for an identifier; an empty sequence when no
    /// subscriber declared interest, which is a normal, silent outcome.
    pub fn resolve(&self, id: &str) -> (r: Vec<&'static str>)
        requires
            self.wf(),
        ensures
            r@.map_values(|s: &'static str| s@) == self.spec_resolve(id@),
    {
        proof {
            lemma_routes_map_props(self.routes@);
        }
        match self.find_route(id) {
            Some(k) => {
                let r = copy_names(&self.routes[k].subscribers);
                proof {
                    assert(r@.map_values(|s: &'static str| s@) =~= self.spec_resolve(id@));
                }
                r
            },
            None => {
                let r: Vec<&'static str> = Vec::new();
                proof {
                    assert(r@.map_values(|s: &'static str| s@) =~= self.spec_resolve(id@));
                }
                r
            },
        }
    }

    /// A fresh table equal to this one except that `name` is appended to the
    /// subscribers of `id` (a route for `id` is created when missing).
    /// Existing subscribers keep their relative order.
    pub fn with_route_appended(&self, id: &'static str, name: &'static str) -> (r: RoutingTable)
        requires
            self.wf(),
        ensures
            r.wf(),
            r.spec_map() == self.spec_map().insert(id@, self.spec_resolve(id@).push(name@)),
    {
        let ghost old_routes = self.routes@;
        let mut new_routes: Vec<Route> = Vec::new();
        let mut found = false;
        let mut k: usize = 0;
        while k < self.routes.len()
            invariant
                k <= old_routes.len(),
                self.routes@ == old_routes,
                routes_unique(old_routes),
                new_routes@.len() == k,
                forall|j: int| 0 <= j < k ==> #[trigger] new_routes@[j].id@ == old_routes[j].id@,
                forall|j: int|
                    0 <= j < k && old_routes[j].id@ != id@ ==> #[trigger] new_routes@[j].spec_subscribers()
                        == old_routes[j].spec_subscribers(),
                forall|j: int|
                    0 <= j < k && old_routes[j].id@ == id@ ==> #[trigger] new_routes@[j].spec_subscribers()
                        == old_routes[j].spec_subscribers().push(name@),
                found <==> (exists|j: int| 0 <= j < k && #[trigger] old_routes[j].id@ == id@),
            decreases old_routes.len() - k,
        {
            let mut subs = copy_names(&self.routes[k].subscribers);
            if str_eq(self.routes[k].id, id) {
                subs.push(name);
                found = true;
                proof {
                    assert(old_routes[k as int].id@ == id@);
                    assert(Route { id: old_routes[k as int].id, subscribers: subs }
                        .spec_subscribers() =~= old_routes[k as int].spec_subscribers().push(
                        name@,
                    ));
                }
            } else {
                proof {
                    assert(Route { id: old_routes[k as int].id, subscribers: subs }
                        .spec_subscribers() =~= old_routes[k as int].spec_subscribers());
                }
            }
            new_routes.push(Route { id: self.routes[k].id, subscribers: subs });
            k += 1;
        }
        if !found {
            let mut subs: Vec<&'static str> = Vec::new();
            subs.push(name);
            proof {
                assert(Route { id, subscribers: subs }.spec_subscribers() =~= Seq::<
                    Seq<char>,
                >::empty().push(name@));
            }
            new_routes.push(Route { id, subscribers: subs });
        }
        let r = RoutingTable { routes: new_routes };
        proof {
            lemma_with_appended_map(old_routes, r.routes@, id@, name@);
        }
        r
    }
}

/// Relates a rebuilt route sequence to the mapping it denotes: appending a
/// subscriber to one identifier's route (creating it when missing) inserts
/// the appended sequence for that identifier and leaves every other binding
/// unchanged.
proof fn lemma_with_appended_map(
    old_routes: Seq<Route>,
    new_routes: Seq<Route>,
    id: Seq<char>,
    name: Seq<char>,
)
    requires
        routes_unique(old_routes),
        (exists|j: int| 0 <= j < old_routes.len() && #[trigger] old_routes[j].id@ == id)
            ==> new_routes.len() == old_routes.len(),
        !(exists|j: int| 0 <= j < old_routes.len() && #[trigger] old_routes[j].id@ == id) ==> {
            &&& new_routes.len() == old_routes.len() + 1
            &&& new_routes.last().id@ == id
            &&& new_routes.last().spec_subscribers() == Seq::<Seq<char>>::empty().push(name)
        },
        forall|j: int|
            0 <= j < old_routes.len() ==> #[trigger] new_routes[j].id@ == old_routes[j].id@,
        forall|j: int|
            0 <= j < old_routes.len() && old_routes[j].id@ != id
                ==> #[trigger] new_routes[j].spec_subscribers()
                == old_routes[j].spec_subscribers(),
        forall|j: int|
            0 <= j < old_routes.len() && old_routes[j].id@ == id
                ==> #[trigger] new_routes[j].spec_subscribers()
                == old_routes[j].spec_subscribers().push(name),
    ensures
        routes_unique(new_routes),
        routes_map(new_routes) == routes_map(old_routes).insert(
            id,
            resolve_of(routes_map(old_routes), id).push(name),
        ),
{
    let found = exists|j: int| 0 <= j < old_routes.len() && #[trigger] old_routes[j].id@ == id;
    assert forall|i: int, j: int| 0 <= i < j < new_routes.len() implies new_routes[i].id@
        != new_routes[j].id@ by {
        if j < old_routes.len() {
            assert(old_routes[i].id@ != old_routes[j].id@);
        } else {
            assert(!found);
            assert(new_routes[i].id@ == old_routes[i].id@);
        }
    }
    lemma_routes_map_props(old_routes);
    lemma_routes_map_props(new_routes);
    let m_old = routes_map(old_routes);
    let m_new = routes_map(new_routes);
    let target = m_old.insert(id, resolve_of(m_old, id).push(name));
    assert forall|key: Seq<char>| #[trigger] m_new.contains_key(key) implies target.contains_key(
        key,
    ) by {
        let k = choose|k: int| 0 <= k < new_routes.len() && new_routes[k].id@ == key;
        if k < old_routes.len() {
            assert(old_routes[k].id@ == key);
        }
    }
    assert forall|key: Seq<char>| #[trigger] target.contains_key(key) implies m_new.contains_key(
        key,
    ) by {
        if key == id {
            if found {
                let k = choose|k: int|
                    0 <= k < old_routes.len() && #[trigger] old_routes[k].id@ == id;
                assert(new_routes[k].id@ == key);
            } else {
                assert(new_routes.last().id@ == key);
                assert(new_routes[new_routes.len() - 1].id@ == key);
            }
        } else {
            let k = choose|k: int| 0 <= k < old_routes.len() && #[trigger] old_routes[k].id@ == key;
            assert(new_routes[k].id@ == key);
        }
    }
    assert forall|key: Seq<char>| m_new.contains_key(key) && target.contains_key(key) implies
        #[trigger] m_new[key] == #[trigger] target[key] by {
        if key == id {
            if found {
                let k = choose|k: int|
                    0 <= k < old_routes.len() && #[trigger] old_routes[k].id@ == id;
                assert(m_new[key] == new_routes[k].spec_subscribers());
                assert(m_old[key] == old_routes[k].spec_subscribers());
            } else {
                let last = new_routes.len() - 1;
                assert(new_routes[last].id@ == id);
                assert(m_new[key] == new_routes[last].spec_subscribers());
                assert(m_new[key] =~= resolve_of(m_old, id).push(name));
            }
        } else {
            let k = choose|k: int| 0 <= k < old_routes.len() && #[trigger] old_routes[k].id@ == key;
            assert(m_new[key] == new_routes[k].spec_subscribers());
            assert(m_old[key] == old_routes[k].spec_subscribers());
        }
    }
    assert(m_new =~= target);
}

/// The mapping after registering one subscriber: for each identifier in
/// `subs`, in order, the subscriber's `name` is appended to that
/// identifier's sequence (created empty when missing).
pub open spec fn extend_routes(
    m: Map<Seq<char>, Seq<Seq<char>>>,
    subs: Seq<Seq<char>>,
    name: Seq<char>,
) -> Map<Seq<char>, Seq<Seq<char>>>
    decreases subs.len(),
{
    if subs.len() == 0 {
        m
    } else {
        let m1 = extend_routes(m, subs.drop_last(), name);
        m1.insert(subs.last(), resolve_of(m1, subs.last()).push(name))
    }
}

/// Number of occurrences of `x` in `s`.
pub open spec fn occurrences(s: Seq<Seq<char>>, x: Seq<char>) -> nat
    decreases s.len(),
{
    if s.len() == 0 {
        0
    } else {
        occurrences(s.drop_last(), x) + (if s.last() == x {
            1nat
        } else {
            0nat
        })
    }
}

/// Fan-out order law: registering a subscriber never disturbs the
/// subscribers an identifier already has — it only appends the new name, as
/// many times as the identifier was subscribed to. In particular, earlier
/// registrants keep their earlier delivery positions for every identifier.
pub proof fn lemma_extend_routes_order(
    m: Map<Seq<char>, Seq<Seq<char>>>,
    subs: Seq<Seq<char>>,
    name: Seq<char>,
    id: Seq<char>,
)
    ensures
        resolve_of(extend_routes(m, subs, name), id) == resolve_of(m, id) + Seq::new(
            occurrences(subs, id),
            |i: int| name,
        ),
    decreases subs.len(),
{
    let repeat = |n: nat| Seq::new(n, |i: int| name);
    if subs.len() == 0 {
        assert(resolve_of(m, id) + repeat(0) =~= resolve_of(m, id));
    } else {
        lemma_extend_routes_order(m, subs.drop_last(), name, id);
        let m1 = extend_routes(m, subs.drop_last(), name);
        let n1 = occurrences(subs.drop_last(), id);
        if subs.last() == id {
            assert(occurrences(subs, id) == n1 + 1);
            assert(resolve_of(extend_routes(m, subs, name), id) == resolve_of(m1, id).push(name));
            assert((resolve_of(m, id) + repeat(n1)).push(name) =~= resolve_of(m, id) + repeat(
                n1 + 1,
            ));
        } else {
            assert(occurrences(subs, id) == n1);
            assert(resolve_of(extend_routes(m, subs, name), id) == resolve_of(m1, id));
        }
    }
}

/// An element-for-element copy of a sequence of identifiers.
fn copy_names(v: &Vec<&'static str>) -> (r: Vec<&'static str>)
    ensures
        r@ == v@,
{
    let mut r: Vec<&'static str> = Vec::new();
    let mut i: usize = 0;
    while i < v.len()
        invariant
            i <= v@.len(),
            r@ == v@.subrange(0, i as int),
        decreases v@.len() - i,
    {
        r.push(v[i]);
        i += 1;
    }
    proof {
        assert(r@ =~= v@);
    }
    r
}

} // verus!
