//! The store of binds, listeners, routes, backends and policies.

use std::sync::Arc;

use vstd::prelude::*;

use crate::keyed::{added, StringMap, StringSet};
use crate::store::model::{
    bind_of_listener, empty_keeps_inv, gather, insert_backend_keeps_inv, insert_listener_keeps_inv,
    insert_policy_keeps_inv, insert_route_keeps_inv, insert_tcp_route_keeps_inv, keys_at,
    listeners_changed, on_frontends, remove_bind_keeps_inv, remove_policy_keeps_inv,
    removals_keep_inv, routes_at, routes_ok, service_routes_id, upsert_bind_keeps_inv, with_route,
    without_route, BindEvent, BindEventView, BindListeners, ResourceKind, RouteTarget,
    RouteTargetRef, RouteTargetView, StoreView,
};
use crate::target_table::{copy_key, target_id, TargetId, TargetKey, TargetTable};
use crate::text::{texts, Text};
use crate::types::agent::{
    Backend, BackendKey, BackendWithPolicies, Bind, BindKey, BindView, Keyed, Listener, ListenerKey,
    ListenerSet, ListenerView, NamespacedHostname, NamespacedHostnameView, PolicyKey, Route,
    RouteGroupKey, RouteKey, RouteSet, Routes, SocketAddr, TCPRoute, TCPRouteSet, TargetedPolicy,
};
use crate::types::frontend::{AccessLogPolicy, FrontendPolicy, TracingPolicy};

verus! {

/// How connections are spread over threads.
#[derive(Debug, Clone, Copy, PartialEq, Eq, Structural)]
pub enum ThreadingMode {
    Multithreaded,
    ThreadPerCore,
}

/// `core_affinity::get_core_ids`: the cores of this machine, none if they cannot be told. Which
/// they are depends on the machine, so nothing is claimed of them.
#[verifier::external_body]
fn machine_cores() -> (r: Vec<usize>) {
    core_affinity::get_core_ids().unwrap_or_default().into_iter().map(|c| c.id).collect()
}

/// `std::sync::Arc::ptr_eq`: whether both share one allocation. If they do, they hold the same
/// value; if they do not, nothing is claimed.
#[verifier::external_body]
pub(crate) fn same_allocation(a: &Arc<AccessLogPolicy>, b: &Arc<AccessLogPolicy>) -> (r: bool)
    ensures
        r ==> *a == *b,
{
    Arc::ptr_eq(a, b)
}

/// Telemetry that is flushed when the gateway shuts down.
#[derive(Debug)]
pub enum ShutdownPolicy {
    Tracing(Arc<TracingPolicy>),
    AccessLog(Option<Arc<AccessLogPolicy>>),
}

/// What a policy flushes when the gateway shuts down.
pub open spec fn shutdown_of(policy: FrontendPolicy) -> Option<ShutdownPolicy> {
    match policy {
        FrontendPolicy::Tracing(t) => Some(ShutdownPolicy::Tracing(t)),
        FrontendPolicy::AccessLog(l) => Some(ShutdownPolicy::AccessLog(l.access_log_policy)),
        _ => None,
    }
}

/// What the policies behind the keys flush when the gateway shuts down.
pub open spec fn shutdowns(rules: Seq<FrontendPolicy>) -> Seq<ShutdownPolicy>
    decreases rules.len(),
{
    if rules.len() == 0 {
        Seq::empty()
    } else {
        match shutdown_of(rules.last()) {
            Some(s) => shutdowns(rules.drop_last()).push(s),
            None => shutdowns(rules.drop_last()),
        }
    }
}

/// Whether a bind at the address takes connections to the wanted one: at the same port if it
/// stands for every address of the host, else at the very address.
pub open spec fn serves(have: SocketAddr, want: SocketAddr) -> bool {
    if have.unspecified() {
        have.port_of() == want.port_of()
    } else {
        have == want
    }
}

/// The configuration that is being served.
#[derive(Debug)]
pub struct Store {
    ipv6_enabled: bool,
    core_ids: Option<Vec<usize>>,
    binds: StringMap<Arc<Bind>>,
    resources: StringMap<ResourceKind>,
    policies_by_key: StringMap<Arc<TargetedPolicy>>,
    policies_by_target: TargetTable<StringSet>,
    backends: StringMap<Arc<BackendWithPolicies>>,
    pending_listeners: StringMap<ListenerSet>,
    http_routes: TargetTable<Arc<RouteSet>>,
    tcp_routes: TargetTable<Arc<TCPRouteSet>>,
    listener_epoch: u64,
    events: Vec<BindEvent>,
    subscribed: bool,
    tokenizes: bool,
}

/// The cores of an optional list.
pub open spec fn core_seq(core_ids: Option<Vec<usize>>) -> Option<Seq<usize>> {
    match core_ids {
        Some(c) => Some(c@),
        None => None,
    }
}

/// What binds hold.
pub open spec fn bind_views(m: Map<Text, Arc<Bind>>) -> Map<Text, BindView> {
    m.map_values(|b: Arc<Bind>| (*b)@)
}

/// What route sets hold.
pub open spec fn routes_views<R: Keyed>(
    m: Map<TargetId, Arc<Routes<R>>>,
) -> Map<TargetId, Map<Text, Arc<R>>> {
    m.map_values(|r: Arc<Routes<R>>| (*r)@)
}

/// What events hold.
pub open spec fn event_views(events: Seq<BindEvent>) -> Seq<BindEventView> {
    events.map_values(|e: BindEvent| e@)
}

impl View for Store {
    type V = StoreView;

    closed spec fn view(&self) -> StoreView {
        StoreView {
            ipv6_enabled: self.ipv6_enabled,
            cores: core_seq(self.core_ids),
            binds: bind_views(self.binds@),
            bind_order: self.binds.keys(),
            resources: self.resources@.map_values(|r: ResourceKind| r@),
            policies: self.policies_by_key@,
            policy_order: self.policies_by_key.keys(),
            by_target: self.policies_by_target@.map_values(|s: StringSet| s.items()),
            backends: self.backends@,
            pending: self.pending_listeners@.map_values(|l: ListenerSet| l@),
            http_routes: routes_views(self.http_routes@),
            tcp_routes: routes_views(self.tcp_routes@),
            epoch: self.listener_epoch,
            events: event_views(self.events@),
            subscribed: self.subscribed,
            tokenizes: self.tokenizes,
        }
    }
}

/// Takes the route with the key out of every set that has it, and forgets the sets that are left
/// without routes. Tells whether a set had it.
fn drop_route<R: Keyed>(
    table: &TargetTable<Arc<Routes<R>>>,
    key: &str,
) -> (r: (TargetTable<Arc<Routes<R>>>, bool))
    requires
        table.wf(),
        forall|id: TargetId| #[trigger] table@.contains_key(id) ==> (*table@[id]).wf(),
    ensures
        r.0.wf(),
        forall|id: TargetId| #[trigger] r.0@.contains_key(id) ==> (*r.0@[id]).wf(),
        routes_views(r.0@) == without_route(routes_views(table@), key@),
        r.1 == (exists|id: TargetId| #[trigger]
            table@.contains_key(id) && (*table@[id])@.contains_key(key@)),
{
    let mut out: TargetTable<Arc<Routes<R>>> = TargetTable::new();
    let mut found = false;
    let mut i: usize = 0;
    proof {
        table.lemma_ids();
    }
    while i < table.len()
        invariant
            table.wf(),
            forall|id: TargetId| #[trigger] table@.contains_key(id) ==> (*table@[id]).wf(),
            table.ids().no_duplicates(),
            table.values().len() == table.ids().len(),
            forall|j: int|
                0 <= j < table.ids().len() ==> table@.contains_key(#[trigger] table.ids()[j])
                    && table@[table.ids()[j]] == table.values()[j],
            i <= table.ids().len(),
            out.wf(),
            forall|id: TargetId| #[trigger] out@.contains_key(id) ==> (*out@[id]).wf(),
            forall|id: TargetId| #[trigger]
                out@.contains_key(id) ==> exists|j: int|
                    0 <= j < i && table.ids()[j] == id && (*table.values()[j])@.remove(key@)
                        != Map::<Text, Arc<R>>::empty() && (*out@[id])@
                        == (*table.values()[j])@.remove(key@),
            forall|j: int|
                0 <= j < i && (*#[trigger] table.values()[j])@.remove(key@) != Map::<
                    Text,
                    Arc<R>,
                >::empty() ==> out@.contains_key(table.ids()[j]),
            found == (exists|j: int|
                0 <= j < i && (*#[trigger] table.values()[j])@.contains_key(key@)),
        decreases table.ids().len() - i,
    {
        let ghost before = out@;
        let ghost id = table.ids()[i as int];
        let set = table.value_at(i);
        assert(*set == table.values()[i as int]);
        assert(table@.contains_key(table.ids()[i as int]));
        let kept = if set.contains(key) {
            let mut copy = set.share();
            copy.remove(key);
            found = true;
            Arc::new(copy)
        } else {
            assert((**set)@ =~= (**set)@.remove(key@));
            set.clone()
        };
        assert((*kept)@ == (*table.values()[i as int])@.remove(key@));
        if !kept.is_empty() {
            out.insert(copy_key(table.key_at(i)), kept);
            proof {
                assert forall|k: TargetId| #[trigger] out@.contains_key(k) implies exists|j: int|
                    0 <= j < i + 1 && table.ids()[j] == k && (*table.values()[j])@.remove(key@)
                        != Map::<Text, Arc<R>>::empty() && (*out@[k])@
                        == (*table.values()[j])@.remove(key@) by {
                    if k == id {
                        assert(table.ids()[i as int] == k);
                    } else {
                        assert(before.contains_key(k));
                    }
                }
            }
        }
        i = i + 1;
    }
    proof {
        let want = without_route(routes_views(table@), key@);
        let have = routes_views(out@);
        assert forall|id: TargetId| have.contains_key(id) == want.contains_key(id) by {
            if have.contains_key(id) {
                assert(out@.contains_key(id));
            }
            if want.contains_key(id) {
                assert(table@.contains_key(id));
                let j = choose|j: int| 0 <= j < table.ids().len() && table.ids()[j] == id;
                assert(table@[id] == table.values()[j]);
            }
        }
        assert forall|id: TargetId| have.contains_key(id) implies have[id] == want[id] by {
            assert(out@.contains_key(id));
            let j = choose|j: int|
                0 <= j < i && table.ids()[j] == id && (*table.values()[j])@.remove(key@) != Map::<
                    Text,
                    Arc<R>,
                >::empty() && (*out@[id])@ == (*table.values()[j])@.remove(key@);
            assert(table@[id] == table.values()[j]);
        }
        assert(have =~= want);
        if found {
            let j = choose|j: int|
                0 <= j < i && (*#[trigger] table.values()[j])@.contains_key(key@);
            assert(table@.contains_key(table.ids()[j]));
        }
        if exists|id: TargetId| #[trigger]
            table@.contains_key(id) && (*table@[id])@.contains_key(key@) {
            let id = choose|id: TargetId| #[trigger]
                table@.contains_key(id) && (*table@[id])@.contains_key(key@);
            let j = choose|j: int| 0 <= j < table.ids().len() && table.ids()[j] == id;
            assert(table@[id] == table.values()[j]);
        }
    }
    (out, found)
}

/// Puts a route under a target.
fn put_route<R: Keyed>(table: &mut TargetTable<Arc<Routes<R>>>, key: TargetKey, route: R)
    requires
        old(table).wf(),
        forall|id: TargetId| #[trigger] old(table)@.contains_key(id) ==> (*old(table)@[id]).wf(),
    ensures
        final(table).wf(),
        forall|id: TargetId| #[trigger] final(table)@.contains_key(id) ==> (*final(table)@[id]).wf(),
        routes_views(final(table)@) == with_route(
            routes_views(old(table)@),
            target_id(key),
            route,
        ),
{
    let ghost before = table@;
    let ghost id = target_id(key);
    let mut set = match table.get(&key) {
        Some(s) => s.share(),
        None => Routes::new(),
    };
    let ghost held = set@;
    assert(held == routes_at(routes_views(before), id));
    set.insert(route);
    table.insert(key, Arc::new(set));
    assert(routes_views(table@) =~= with_route(routes_views(before), id, route));
}

/// The routes of services: of each service that has some, once.
pub open spec fn mesh_of<R: Keyed>(
    mesh: Seq<(NamespacedHostname, Arc<Routes<R>>)>,
    routes: Map<TargetId, Map<Text, Arc<R>>>,
) -> bool {
    &&& forall|i: int|
        0 <= i < mesh.len() ==> routes.contains_key(service_routes_id((#[trigger] mesh[i]).0@))
            && (*mesh[i].1)@ == routes[service_routes_id(mesh[i].0@)]
    &&& forall|s: NamespacedHostnameView| #[trigger]
        routes.contains_key(service_routes_id(s)) ==> exists|i: int|
            0 <= i < mesh.len() && (#[trigger] mesh[i]).0@ == s
    &&& forall|i: int, j: int|
        0 <= i < j < mesh.len() ==> (#[trigger] mesh[i]).0@ != (#[trigger] mesh[j]).0@
}

/// The routes of groups: of each group that has some, once.
pub open spec fn groups_of(
    groups: Seq<(RouteGroupKey, Arc<RouteSet>)>,
    routes: Map<TargetId, Map<Text, Arc<Route>>>,
) -> bool {
    &&& forall|i: int|
        0 <= i < groups.len() ==> routes.contains_key(group_routes_id((#[trigger] groups[i]).0@))
            && (*groups[i].1)@ == routes[group_routes_id(groups[i].0@)]
    &&& forall|g: Text| #[trigger]
        routes.contains_key(group_routes_id(g)) ==> exists|i: int|
            0 <= i < groups.len() && (#[trigger] groups[i]).0@ == g
    &&& forall|i: int, j: int|
        0 <= i < j < groups.len() ==> (#[trigger] groups[i]).0@ != (#[trigger] groups[j]).0@
}

/// The identity under which the routes of a group are found.
pub open spec fn group_routes_id(group: Text) -> TargetId {
    RouteTargetView::RouteGroup(group).id()
}

/// Picks the routes of services out of a table.
fn select_services<R: Keyed>(table: &TargetTable<Arc<Routes<R>>>) -> (r: Vec<
    (NamespacedHostname, Arc<Routes<R>>),
>)
    requires
        table.wf(),
        routes_ok(routes_views(table@)),
    ensures
        mesh_of(r@, routes_views(table@)),
{
    let ghost routes = routes_views(table@);
    let mut out: Vec<(NamespacedHostname, Arc<Routes<R>>)> = Vec::new();
    let mut i: usize = 0;
    proof {
        table.lemma_ids();
    }
    while i < table.len()
        invariant
            table.wf(),
            routes == routes_views(table@),
            routes_ok(routes),
            i <= table.ids().len(),
            table.ids().no_duplicates(),
            table.values().len() == table.ids().len(),
            forall|j: int|
                0 <= j < table.ids().len() ==> table@.contains_key(#[trigger] table.ids()[j])
                    && table@[table.ids()[j]] == table.values()[j],
            forall|n: int|
                0 <= n < out@.len() ==> routes.contains_key(
                    service_routes_id((#[trigger] out@[n]).0@),
                ) && (*out@[n].1)@ == routes[service_routes_id(out@[n].0@)],
            forall|n: int|
                0 <= n < out@.len() ==> table.ids().take(i as int).contains(
                    service_routes_id((#[trigger] out@[n]).0@),
                ),
            forall|s: NamespacedHostnameView| #[trigger]
                table.ids().take(i as int).contains(service_routes_id(s)) ==> exists|n: int|
                    0 <= n < out@.len() && (#[trigger] out@[n]).0@ == s,
            forall|a: int, b: int|
                0 <= a < b < out@.len() ==> (#[trigger] out@[a]).0@ != (#[trigger] out@[b]).0@,
        decreases table.ids().len() - i,
    {
        let ghost before = out@;
        let ghost id = table.ids()[i as int];
        let ghost seen = table.ids().take(i as int);
        let key = table.key_at(i);
        proof {
            assert(table@.contains_key(id));
            assert(routes.contains_key(id));
            lemma_seen(table.ids(), i as int);
        }
        if key.0 == 1 {
            let service = NamespacedHostname { namespace: key.1.clone(), hostname: key.2.clone() };
            proof {
                let t = choose|t: RouteTargetView| #[trigger] t.id() == id;
                assert(t == RouteTargetView::Service(service@));
                assert(service_routes_id(service@) == id);
            }
            out.push((service, table.value_at(i).clone()));
            proof {
                assert forall|s: NamespacedHostnameView| #[trigger]
                    table.ids().take(i as int + 1).contains(service_routes_id(s)) implies exists|
                    n: int,
                |
                    0 <= n < out@.len() && (#[trigger] out@[n]).0@ == s by {
                    if service_routes_id(s) == id {
                        assert(out@[before.len() as int].0@ == s);
                    } else {
                        assert(seen.contains(service_routes_id(s)));
                        let n = choose|n: int| 0 <= n < before.len() && (#[trigger] before[n]).0@ == s;
                        assert(out@[n].0@ == s);
                    }
                }
                assert forall|a: int, b: int| 0 <= a < b < out@.len() implies (
                #[trigger] out@[a]).0@ != (#[trigger] out@[b]).0@ by {
                    if b == before.len() {
                        assert(seen.contains(service_routes_id(before[a].0@)));
                        assert(!seen.contains(id));
                    }
                }
            }
        } else {
            proof {
                assert forall|s: NamespacedHostnameView| #[trigger]
                    table.ids().take(i as int + 1).contains(service_routes_id(s)) implies exists|
                    n: int,
                |
                    0 <= n < out@.len() && (#[trigger] out@[n]).0@ == s by {
                    assert(service_routes_id(s) != id);
                    assert(seen.contains(service_routes_id(s)));
                }
            }
        }
        i = i + 1;
    }
    proof {
        assert(table.ids().take(i as int) =~= table.ids());
        assert forall|s: NamespacedHostnameView| #[trigger]
            routes.contains_key(service_routes_id(s)) implies exists|n: int|
            0 <= n < out@.len() && (#[trigger] out@[n]).0@ == s by {
            assert(table@.contains_key(service_routes_id(s)));
            let j = choose|j: int|
                0 <= j < table.ids().len() && table.ids()[j] == service_routes_id(s);
            assert(table.ids().contains(service_routes_id(s)));
        }
    }
    out
}

/// A prefix grows by one item, which was not in it.
proof fn lemma_seen(ids: Seq<TargetId>, i: int)
    requires
        0 <= i < ids.len(),
        ids.no_duplicates(),
    ensures
        !ids.take(i).contains(ids[i]),
        forall|x: TargetId| #[trigger]
            ids.take(i + 1).contains(x) <==> (ids.take(i).contains(x) || x == ids[i]),
{
    assert forall|x: TargetId| #[trigger] ids.take(i + 1).contains(x) <==> (ids.take(i).contains(x)
        || x == ids[i]) by {
        if ids.take(i + 1).contains(x) {
            let j = ids.take(i + 1).index_of(x);
            if j < i {
                assert(ids.take(i)[j] == x);
            }
        }
        if ids.take(i).contains(x) {
            let j = ids.take(i).index_of(x);
            assert(ids.take(i + 1)[j] == x);
        }
        assert(ids.take(i + 1)[i] == ids[i]);
    }
}

/// Picks the routes of groups out of a table.
fn select_groups(table: &TargetTable<Arc<RouteSet>>) -> (r: Vec<(RouteGroupKey, Arc<RouteSet>)>)
    requires
        table.wf(),
        routes_ok(routes_views(table@)),
    ensures
        groups_of(r@, routes_views(table@)),
{
    let ghost routes = routes_views(table@);
    let mut out: Vec<(RouteGroupKey, Arc<RouteSet>)> = Vec::new();
    let mut i: usize = 0;
    proof {
        table.lemma_ids();
    }
    while i < table.len()
        invariant
            table.wf(),
            routes == routes_views(table@),
            routes_ok(routes),
            i <= table.ids().len(),
            table.ids().no_duplicates(),
            table.values().len() == table.ids().len(),
            forall|j: int|
                0 <= j < table.ids().len() ==> table@.contains_key(#[trigger] table.ids()[j])
                    && table@[table.ids()[j]] == table.values()[j],
            forall|n: int|
                0 <= n < out@.len() ==> routes.contains_key(
                    group_routes_id((#[trigger] out@[n]).0@),
                ) && (*out@[n].1)@ == routes[group_routes_id(out@[n].0@)],
            forall|n: int|
                0 <= n < out@.len() ==> table.ids().take(i as int).contains(
                    group_routes_id((#[trigger] out@[n]).0@),
                ),
            forall|g: Text| #[trigger]
                table.ids().take(i as int).contains(group_routes_id(g)) ==> exists|n: int|
                    0 <= n < out@.len() && (#[trigger] out@[n]).0@ == g,
            forall|a: int, b: int|
                0 <= a < b < out@.len() ==> (#[trigger] out@[a]).0@ != (#[trigger] out@[b]).0@,
        decreases table.ids().len() - i,
    {
        let ghost before = out@;
        let ghost id = table.ids()[i as int];
        let ghost seen = table.ids().take(i as int);
        let key = table.key_at(i);
        proof {
            assert(table@.contains_key(id));
            assert(routes.contains_key(id));
            lemma_seen(table.ids(), i as int);
        }
        if key.0 == 2 {
            let group = key.1.clone();
            proof {
                let t = choose|t: RouteTargetView| #[trigger] t.id() == id;
                assert(t == RouteTargetView::RouteGroup(group@));
                assert(group_routes_id(group@) == id);
            }
            out.push((group, table.value_at(i).clone()));
            proof {
                assert forall|g: Text| #[trigger]
                    table.ids().take(i as int + 1).contains(group_routes_id(g)) implies exists|
                    n: int,
                |
                    0 <= n < out@.len() && (#[trigger] out@[n]).0@ == g by {
                    if group_routes_id(g) == id {
                        assert(out@[before.len() as int].0@ == g);
                    } else {
                        assert(seen.contains(group_routes_id(g)));
                        let n = choose|n: int| 0 <= n < before.len() && (#[trigger] before[n]).0@ == g;
                        assert(out@[n].0@ == g);
                    }
                }
                assert forall|a: int, b: int| 0 <= a < b < out@.len() implies (
                #[trigger] out@[a]).0@ != (#[trigger] out@[b]).0@ by {
                    if b == before.len() {
                        assert(seen.contains(group_routes_id(before[a].0@)));
                        assert(!seen.contains(id));
                    }
                }
            }
        } else {
            proof {
                assert forall|g: Text| #[trigger]
                    table.ids().take(i as int + 1).contains(group_routes_id(g)) implies exists|
                    n: int,
                |
                    0 <= n < out@.len() && (#[trigger] out@[n]).0@ == g by {
                    assert(group_routes_id(g) != id);
                    assert(seen.contains(group_routes_id(g)));
                }
            }
        }
        i = i + 1;
    }
    proof {
        assert(table.ids().take(i as int) =~= table.ids());
        assert forall|g: Text| #[trigger] routes.contains_key(group_routes_id(g)) implies exists|
            n: int,
        |
            0 <= n < out@.len() && (#[trigger] out@[n]).0@ == g by {
            assert(table@.contains_key(group_routes_id(g)));
            let j = choose|j: int|
                0 <= j < table.ids().len() && table.ids()[j] == group_routes_id(g);
            assert(table.ids().contains(group_routes_id(g)));
        }
    }
    out
}

impl Store {
    /// The parts of the store are well formed.
    closed spec fn rep_ok(&self) -> bool {
        &&& self.binds.wf()
        &&& self.resources.wf()
        &&& self.policies_by_key.wf()
        &&& self.policies_by_target.wf()
        &&& self.backends.wf()
        &&& self.pending_listeners.wf()
        &&& self.http_routes.wf()
        &&& self.tcp_routes.wf()
        &&& forall|k: Text| #[trigger] self.binds@.contains_key(k) ==> (*self.binds@[k]).wf()
        &&& forall|k: Text| #[trigger]
            self.pending_listeners@.contains_key(k) ==> self.pending_listeners@[k].wf()
        &&& forall|id: TargetId| #[trigger]
            self.policies_by_target@.contains_key(id) ==> self.policies_by_target@[id].wf()
        &&& forall|id: TargetId| #[trigger]
            self.http_routes@.contains_key(id) ==> (*self.http_routes@[id]).wf()
        &&& forall|id: TargetId| #[trigger]
            self.tcp_routes@.contains_key(id) ==> (*self.tcp_routes@[id]).wf()
    }

    /// The parts of the store are well formed, and it satisfies its invariant.
    pub closed spec fn wf(&self) -> bool {
        &&& self.rep_ok()
        &&& self@.inv()
    }

    /// A well-formed store satisfies the invariant.
    pub proof fn lemma_inv(&self)
        requires
            self.wf(),
        ensures
            self@.inv(),
    {
    }

    /// An empty store whose binds get one socket.
    pub fn with_ipv6_enabled(ipv6_enabled: bool) -> (r: Self)
        ensures
            r.wf(),
            r@ == StoreView::empty(ipv6_enabled, None),
    {
        Self::with_cores(ipv6_enabled, None)
    }

    /// An empty store.
    pub fn default() -> (r: Self)
        ensures
            r.wf(),
            r@ == StoreView::empty(true, None),
    {
        Self::with_ipv6_enabled(true)
    }

    /// An empty store. With a thread per core, each bind gets a socket for each core of the
    /// machine.
    pub fn new(ipv6_enabled: bool, threading_mode: ThreadingMode) -> (r: Self)
        ensures
            r.wf(),
            r@ == StoreView::empty(ipv6_enabled, r@.cores),
            r@.cores is Some == (threading_mode == ThreadingMode::ThreadPerCore),
    {
        match threading_mode {
            ThreadingMode::Multithreaded => Self::with_cores(ipv6_enabled, None),
            ThreadingMode::ThreadPerCore => Self::with_cores(ipv6_enabled, Some(machine_cores())),
        }
    }

    /// An empty store whose binds get a socket for each of the cores, or one if none are given.
    pub fn with_cores(ipv6_enabled: bool, core_ids: Option<Vec<usize>>) -> (r: Self)
        ensures
            r.wf(),
            r@ == StoreView::empty(ipv6_enabled, core_seq(core_ids)),
    {
        let ghost cores = core_seq(core_ids);
        let r = Store {
            ipv6_enabled,
            core_ids,
            binds: StringMap::new(),
            resources: StringMap::new(),
            policies_by_key: StringMap::new(),
            policies_by_target: TargetTable::new(),
            backends: StringMap::new(),
            pending_listeners: StringMap::new(),
            http_routes: TargetTable::new(),
            tcp_routes: TargetTable::new(),
            listener_epoch: 0,
            events: Vec::new(),
            subscribed: false,
            tokenizes: false,
        };
        proof {
            empty_keeps_inv(ipv6_enabled, cores);
            assert(r@ =~= StoreView::empty(ipv6_enabled, cores));
        }
        r
    }

    // -----------------------------------------------------------------------------------------
    // Lookups
    // -----------------------------------------------------------------------------------------

    fn http_routes_of(&self, target: RouteTargetRef<'_>) -> (r: Option<Arc<RouteSet>>)
        requires
            self.wf(),
        ensures
            match r {
                Some(set) => self@.http_routes.contains_key(target.target().id()) && (*set)@
                    == self@.http_routes[target.target().id()] && (*set).wf(),
                None => !self@.http_routes.contains_key(target.target().id()),
            },
    {
        let key = target.key();
        match self.http_routes.get(&key) {
            Some(set) => Some(set.clone()),
            None => None,
        }
    }

    fn tcp_routes_of(&self, target: RouteTargetRef<'_>) -> (r: Option<Arc<TCPRouteSet>>)
        requires
            self.wf(),
        ensures
            match r {
                Some(set) => self@.tcp_routes.contains_key(target.target().id()) && (*set)@
                    == self@.tcp_routes[target.target().id()] && (*set).wf(),
                None => !self@.tcp_routes.contains_key(target.target().id()),
            },
    {
        let key = target.key();
        match self.tcp_routes.get(&key) {
            Some(set) => Some(set.clone()),
            None => None,
        }
    }

    /// The HTTP routes of a listener.
    pub fn get_listener_routes(&self, listener: &ListenerKey) -> (r: Option<Arc<RouteSet>>)
        requires
            self.wf(),
        ensures
            match r {
                Some(set) => self@.http_routes.contains_key(
                    RouteTargetView::Listener(listener@).id(),
                ) && (*set)@ == self@.http_routes[RouteTargetView::Listener(listener@).id()]
                    && (*set).wf(),
                None => !self@.http_routes.contains_key(RouteTargetView::Listener(listener@).id()),
            },
    {
        self.http_routes_of(RouteTargetRef::Listener(listener.as_str()))
    }

    /// The TCP routes of a listener.
    pub fn get_listener_tcp_routes(&self, listener: &ListenerKey) -> (r: Option<Arc<TCPRouteSet>>)
        requires
            self.wf(),
        ensures
            match r {
                Some(set) => self@.tcp_routes.contains_key(
                    RouteTargetView::Listener(listener@).id(),
                ) && (*set)@ == self@.tcp_routes[RouteTargetView::Listener(listener@).id()]
                    && (*set).wf(),
                None => !self@.tcp_routes.contains_key(RouteTargetView::Listener(listener@).id()),
            },
    {
        self.tcp_routes_of(RouteTargetRef::Listener(listener.as_str()))
    }

    /// The HTTP routes of a service.
    pub fn get_service_routes(&self, key: &NamespacedHostname) -> (r: Option<Arc<RouteSet>>)
        requires
            self.wf(),
        ensures
            match r {
                Some(set) => self@.http_routes.contains_key(service_routes_id(key@)) && (*set)@
                    == self@.http_routes[service_routes_id(key@)] && (*set).wf(),
                None => !self@.http_routes.contains_key(service_routes_id(key@)),
            },
    {
        self.http_routes_of(
            RouteTargetRef::Service {
                namespace: key.namespace.as_str(),
                hostname: key.hostname.as_str(),
            },
        )
    }

    /// The TCP routes of a service.
    pub fn get_service_tcp_routes(&self, key: &NamespacedHostname) -> (r: Option<Arc<TCPRouteSet>>)
        requires
            self.wf(),
        ensures
            match r {
                Some(set) => self@.tcp_routes.contains_key(service_routes_id(key@)) && (*set)@
                    == self@.tcp_routes[service_routes_id(key@)] && (*set).wf(),
                None => !self@.tcp_routes.contains_key(service_routes_id(key@)),
            },
    {
        self.tcp_routes_of(
            RouteTargetRef::Service {
                namespace: key.namespace.as_str(),
                hostname: key.hostname.as_str(),
            },
        )
    }

    /// The routes of a group.
    pub fn lookup_route_group(&self, route: &RouteGroupKey) -> (r: Option<Arc<RouteSet>>)
        requires
            self.wf(),
        ensures
            match r {
                Some(set) => self@.http_routes.contains_key(
                    RouteTargetView::RouteGroup(route@).id(),
                ) && (*set)@ == self@.http_routes[RouteTargetView::RouteGroup(route@).id()]
                    && (*set).wf(),
                None => !self@.http_routes.contains_key(RouteTargetView::RouteGroup(route@).id()),
            },
    {
        self.http_routes_of(RouteTargetRef::RouteGroup(route.as_str()))
    }

    /// A count that grows when a listener that is being served changes or goes away.
    pub fn subscribe_listener_changes(&self) -> (r: u64)
        ensures
            r == self@.epoch,
    {
        self.listener_epoch
    }

    /// A listener of a bind.
    pub fn get_bind_listener(&self, bind: &BindKey, listener: &ListenerKey) -> (r: Option<
        Arc<Listener>,
    >)
        requires
            self.wf(),
        ensures
            match r {
                Some(l) => self@.binds.contains_key(bind@)
                    && self@.binds[bind@].listeners.contains_key(listener@) && (*l)@
                    == self@.binds[bind@].listeners[listener@],
                None => !(self@.binds.contains_key(bind@)
                    && self@.binds[bind@].listeners.contains_key(listener@)),
            },
    {
        match self.binds.get(bind.as_str()) {
            Some(b) => {
                assert(self.binds@.contains_key(bind@));
                match b.listeners.get(listener.as_str()) {
                    Some(l) => Some(l.clone()),
                    None => None,
                }
            },
            None => None,
        }
    }

    /// A bind.
    pub fn bind(&self, bind: &BindKey) -> (r: Option<Arc<Bind>>)
        requires
            self.wf(),
        ensures
            match r {
                Some(b) => self@.binds.contains_key(bind@) && (*b)@ == self@.binds[bind@]
                    && (*b).wf(),
                None => !self@.binds.contains_key(bind@),
            },
    {
        match self.binds.get(bind.as_str()) {
            Some(b) => {
                assert(self.binds@.contains_key(bind@));
                Some(b.clone())
            },
            None => None,
        }
    }

    /// The first bind, in the order in which they came, that takes connections to the address.
    /// Typically the kernel finds it; here it is found for connections that the gateway routes
    /// itself.
    pub fn find_bind(&self, want: SocketAddr) -> (r: Option<Arc<Bind>>)
        requires
            self.wf(),
        ensures
            match r {
                Some(b) => exists|i: int|
                    #![trigger self@.bind_order[i]]
                    {
                        &&& 0 <= i < self@.bind_order.len()
                        &&& (*b)@ == self@.binds[self@.bind_order[i]]
                        &&& serves((*b)@.address, want)
                        &&& forall|j: int|
                            0 <= j < i ==> !serves(
                                self@.binds[#[trigger] self@.bind_order[j]].address,
                                want,
                            )
                    },
                None => forall|k: Text| #[trigger]
                    self@.binds.contains_key(k) ==> !serves(self@.binds[k].address, want),
            },
    {
        let mut i: usize = 0;
        while i < self.binds.len()
            invariant
                self.wf(),
                i <= self.binds.keys().len(),
                forall|j: int|
                    0 <= j < i ==> !serves(
                        self@.binds[#[trigger] self@.bind_order[j]].address,
                        want,
                    ),
            decreases self.binds.keys().len() - i,
        {
            proof {
                self.binds.lemma_at(i as int);
                assert(self@.bind_order[i as int] == self.binds.keys()[i as int]);
            }
            let b = self.binds.value_at(i);
            let have = b.address;
            let found = if have.is_unspecified() {
                have.port() == want.port()
            } else {
                have == want
            };
            if found {
                return Some(b.clone());
            }
            i = i + 1;
        }
        proof {
            assert forall|k: Text| #[trigger] self@.binds.contains_key(k) implies !serves(
                self@.binds[k].address,
                want,
            ) by {
                let j = self.binds.lemma_place(k);
                assert(self@.bind_order[j] == k);
            }
        }
        None
    }

    /// A backend.
    pub fn backend(&self, r: &BackendKey) -> (b: Option<Arc<BackendWithPolicies>>)
        requires
            self.wf(),
        ensures
            match b {
                Some(x) => self@.backends.contains_key(r@) && x == self@.backends[r@],
                None => !self@.backends.contains_key(r@),
            },
    {
        match self.backends.get(r.as_str()) {
            Some(b) => Some(b.clone()),
            None => None,
        }
    }

    /// All policies, in the order in which they came.
    pub fn all_policies(&self) -> (r: Vec<Arc<TargetedPolicy>>)
        requires
            self.wf(),
        ensures
            r@ == self@.policy_order.map_values(|k: Text| self@.policies[k]),
    {
        let mut out: Vec<Arc<TargetedPolicy>> = Vec::new();
        let mut i: usize = 0;
        while i < self.policies_by_key.len()
            invariant
                self.wf(),
                i <= self.policies_by_key.keys().len(),
                out@.len() == i,
                forall|j: int|
                    0 <= j < i ==> #[trigger] out@[j] == self@.policies[self@.policy_order[j]],
            decreases self.policies_by_key.keys().len() - i,
        {
            proof {
                self.policies_by_key.lemma_at(i as int);
            }
            out.push(self.policies_by_key.value_at(i).clone());
            i = i + 1;
        }
        assert(out@ =~= self@.policy_order.map_values(|k: Text| self@.policies[k]));
        out
    }

    /// The telemetry that is flushed when the gateway shuts down, one for each policy that sends
    /// any, in the order in which the policies came.
    pub fn all_shutdown_policies(&self) -> (r: Vec<ShutdownPolicy>)
        requires
            self.wf(),
        ensures
            r@ == shutdowns(gather(self@.policies, self@.policy_order, on_frontends())),
    {
        let mut out: Vec<ShutdownPolicy> = Vec::new();
        let mut i: usize = 0;
        while i < self.policies_by_key.len()
            invariant
                self.wf(),
                i <= self.policies_by_key.keys().len(),
                out@ == shutdowns(
                    gather(self@.policies, self@.policy_order.take(i as int), on_frontends()),
                ),
            decreases self.policies_by_key.keys().len() - i,
        {
            let ghost keys = self@.policy_order.take(i as int + 1);
            proof {
                self.policies_by_key.lemma_at(i as int);
                assert(keys.drop_last() =~= self@.policy_order.take(i as int));
                assert(keys.last() == self@.policy_order[i as int]);
            }
            let ghost rest = gather(self@.policies, keys.drop_last(), on_frontends());
            match self.policies_by_key.value_at(i).policy.as_frontend() {
                Some(p) => {
                    assert(rest.push(*p).drop_last() =~= rest);
                    match p {
                        FrontendPolicy::Tracing(t) => {
                            out.push(ShutdownPolicy::Tracing(t.clone()));
                        },
                        FrontendPolicy::AccessLog(l) => {
                            out.push(
                                ShutdownPolicy::AccessLog(
                                    crate::types::policy::share(&l.access_log_policy),
                                ),
                            );
                        },
                        _ => {},
                    }
                },
                None => {},
            }
            i = i + 1;
        }
        assert(self@.policy_order.take(i as int) =~= self@.policy_order);
        out
    }

    /// The keys of the policies of a target.
    pub(crate) fn attached_keys(&self, target: &TargetKey) -> (r: Option<&StringSet>)
        requires
            self.wf(),
        ensures
            match r {
                Some(set) => set.items() == keys_at(self@.by_target, target_id(*target)),
                None => keys_at(self@.by_target, target_id(*target)) == Seq::<Text>::empty(),
            },
    {
        self.policies_by_target.get(target)
    }

    /// A policy.
    pub(crate) fn policy(&self, key: &str) -> (r: Option<&Arc<TargetedPolicy>>)
        requires
            self.wf(),
        ensures
            match r {
                Some(p) => self@.policies.contains_key(key@) && *p == self@.policies[key@],
                None => !self@.policies.contains_key(key@),
            },
    {
        self.policies_by_key.get(key)
    }

    /// Whether binds of a control plane listen on IPv6.
    pub(crate) fn ipv6(&self) -> (r: bool)
        ensures
            r == self@.ipv6_enabled,
    {
        self.ipv6_enabled
    }

    /// The keys of the binds.
    pub(crate) fn bind_keys(&self) -> (r: Vec<String>)
        ensures
            texts(r@) == self@.bind_order,
    {
        self.binds.key_list()
    }

    /// The keys of the policies.
    pub(crate) fn policy_keys(&self) -> (r: Vec<String>)
        ensures
            texts(r@) == self@.policy_order,
    {
        self.policies_by_key.key_list()
    }

    /// The keys of the backends.
    pub(crate) fn backend_keys(&self) -> (r: Vec<String>)
        requires
            self.wf(),
        ensures
            texts(r@).no_duplicates(),
            forall|k: Text| #[trigger] texts(r@).contains(k) <==> self@.backends.contains_key(k),
    {
        self.backends.key_list()
    }

    /// The HTTP routes of all services.
    pub(crate) fn http_mesh(&self) -> (r: Vec<(NamespacedHostname, Arc<RouteSet>)>)
        requires
            self.wf(),
        ensures
            mesh_of(r@, self@.http_routes),
    {
        select_services(&self.http_routes)
    }

    /// The TCP routes of all services.
    pub(crate) fn tcp_mesh(&self) -> (r: Vec<(NamespacedHostname, Arc<TCPRouteSet>)>)
        requires
            self.wf(),
        ensures
            mesh_of(r@, self@.tcp_routes),
    {
        select_services(&self.tcp_routes)
    }

    /// The routes of all groups.
    pub(crate) fn route_groups(&self) -> (r: Vec<(RouteGroupKey, Arc<RouteSet>)>)
        requires
            self.wf(),
        ensures
            groups_of(r@, self@.http_routes),
    {
        select_groups(&self.http_routes)
    }

    /// The number of binds.
    pub(crate) fn bind_count(&self) -> (r: usize)
        ensures
            r == self@.bind_order.len(),
    {
        self.binds.len()
    }

    /// The bind at a place of their order.
    pub(crate) fn bind_at(&self, i: usize) -> (r: &Arc<Bind>)
        requires
            self.wf(),
            i < self@.bind_order.len(),
        ensures
            (**r).wf(),
            self@.binds.contains_key(self@.bind_order[i as int]),
            (**r)@ == self@.binds[self@.bind_order[i as int]],
    {
        proof {
            self.binds.lemma_at(i as int);
        }
        self.binds.value_at(i)
    }

    // -----------------------------------------------------------------------------------------
    // Binds and listeners
    // -----------------------------------------------------------------------------------------

    fn bind_listeners(&self, address: SocketAddr) -> (r: BindListeners)
        ensures
            r@ == self@.sockets(address),
    {
        match &self.core_ids {
            Some(core_ids) => {
                let mut cores: Vec<usize> = Vec::new();
                let mut i: usize = 0;
                while i < core_ids.len()
                    invariant
                        i <= core_ids@.len(),
                        cores@ == core_ids@.take(i as int),
                    decreases core_ids@.len() - i,
                {
                    cores.push(core_ids[i]);
                    i = i + 1;
                    assert(cores@ =~= core_ids@.take(i as int));
                }
                assert(cores@ =~= core_ids@);
                BindListeners::PerCore(address, cores)
            },
            None => BindListeners::Single(address),
        }
    }

    fn notify_listener_changed(&mut self)
        ensures
            final(self)@ == (StoreView { epoch: old(self)@.next_epoch(), ..old(self)@ }),
            old(self).rep_ok() ==> final(self).rep_ok(),
    {
        if self.listener_epoch < u64::MAX {
            self.listener_epoch = self.listener_epoch + 1;
        }
        assert(self@ =~= (StoreView { epoch: old(self)@.next_epoch(), ..old(self)@ }));
    }

    fn bind_listener_changed(old_bind: &Bind, new_bind: &Bind) -> (r: bool)
        requires
            old_bind.wf(),
            new_bind.wf(),
        ensures
            r == listeners_changed(old_bind@.listeners, new_bind@.listeners),
    {
        let mut i: usize = 0;
        while i < old_bind.listeners.inner.len()
            invariant
                old_bind.wf(),
                new_bind.wf(),
                i <= old_bind.listeners.inner.keys().len(),
                forall|j: int|
                    0 <= j < i ==> {
                        let k = #[trigger] old_bind.listeners.inner.keys()[j];
                        new_bind@.listeners.contains_key(k) && new_bind@.listeners[k]
                            == old_bind@.listeners[k]
                    },
            decreases old_bind.listeners.inner.keys().len() - i,
        {
            proof {
                old_bind.listeners.inner.lemma_at(i as int);
            }
            let ghost k = old_bind.listeners.inner.keys()[i as int];
            let old_listener = old_bind.listeners.inner.value_at(i);
            assert(old_bind@.listeners.contains_key(k));
            assert(old_bind@.listeners[k] == (**old_listener)@);
            assert((**old_listener)@.key == k);
            match new_bind.listeners.get(old_listener.key.as_str()) {
                Some(new_listener) => {
                    if !old_listener.same(new_listener) {
                        return true;
                    }
                },
                None => {
                    return true;
                },
            }
            i = i + 1;
        }
        proof {
            assert forall|k: Text| #[trigger] old_bind@.listeners.contains_key(k) implies
                new_bind@.listeners.contains_key(k) && new_bind@.listeners[k]
                == old_bind@.listeners[k] by {
                let j = old_bind.listeners.inner.lemma_place(k);
            }
        }
        false
    }

    fn upsert_bind(&mut self, key: BindKey, bind: Bind)
        requires
            old(self).wf(),
            bind.wf(),
            bind@.key == key@,
        ensures
            final(self).wf(),
            final(self)@ == old(self)@.upsert_bind(key@, bind@),
    {
        let ghost start = self@;
        let ghost given = bind@;
        let mut bind = bind;
        match self.pending_listeners.remove(bind.key.as_str()) {
            Some(waiting) => {
                let mut i: usize = 0;
                proof {
                    assert(start.pending.contains_key(key@));
                    assert(start.waiting(key@) == waiting@);
                }
                while i < waiting.inner.len()
                    invariant
                        waiting.wf(),
                        bind.wf(),
                        i <= waiting.inner.keys().len(),
                        bind@ == (BindView { listeners: bind@.listeners, ..given }),
                        forall|k: Text| #[trigger]
                            bind@.listeners.contains_key(k) <==> (given.listeners.contains_key(k)
                                || waiting.inner.keys().take(i as int).contains(k)),
                        forall|k: Text| #[trigger]
                            bind@.listeners.contains_key(k) ==> bind@.listeners[k] == (
                            if waiting.inner.keys().take(i as int).contains(k) {
                                waiting@[k]
                            } else {
                                given.listeners[k]
                            }),
                    decreases waiting.inner.keys().len() - i,
                {
                    proof {
                        waiting.inner.lemma_at(i as int);
                    }
                    let ghost k = waiting.inner.keys()[i as int];
                    let ghost before = bind@.listeners;
                    let l = waiting.inner.value_at(i).clone();
                    assert(waiting@.contains_key(k));
                    assert(waiting@[k] == (*l)@);
                    bind.listeners.insert(l);
                    proof {
                        let seen = waiting.inner.keys().take(i as int);
                        let next = waiting.inner.keys().take(i as int + 1);
                        assert(next =~= seen.push(k));
                        assert forall|x: Text| #[trigger] next.contains(x) <==> (seen.contains(x) || x
                            == k) by {
                            if seen.contains(x) {
                                let j = seen.index_of(x);
                                assert(next[j] == x);
                            }
                            assert(next[i as int] == k);
                        }
                        assert(bind@.listeners == before.insert(k, (*l)@));
                    }
                    i = i + 1;
                }
                proof {
                    let all = waiting.inner.keys();
                    assert(all.take(i as int) =~= all);
                    assert(bind@.listeners =~= given.listeners.union_prefer_right(waiting@)) by {
                        assert forall|k: Text| all.contains(k) <==> #[trigger] waiting@.contains_key(
                            k,
                        ) by {}
                    }
                }
            },
            None => {
                assert(start.waiting(key@) == Map::<Text, ListenerView>::empty());
                assert(given.listeners.union_prefer_right(Map::empty()) =~= given.listeners);
            },
        }
        let ghost full = bind@;
        assert(full =~= start.completed(given));
        let bind = Arc::new(bind);
        let old_bind = match self.binds.get(key.as_str()) {
            Some(b) => Some(b.clone()),
            None => None,
        };
        match &old_bind {
            Some(old_bind) => {
                assert(start.binds[key@] == (**old_bind)@);
                if Self::bind_listener_changed(old_bind, &bind) {
                    self.notify_listener_changed();
                }
            },
            None => {
                let listeners = self.bind_listeners(bind.address);
                let ghost events = self.events@;
                self.events.push(BindEvent::Add(bind.clone(), listeners));
                assert(event_views(self.events@) =~= event_views(events).push(
                    BindEventView::Add(full, start.sockets(full.address)),
                ));
            },
        }
        self.binds.insert(key, bind);
        proof {
            assert(self@ =~= start.upsert_bind(key@, given)) by {
                assert(self@.binds =~= start.binds.insert(key@, full));
                assert(self@.pending =~= start.pending.remove(key@));
                assert(self@.bind_order =~= added(start.bind_order, key@));
            }
            upsert_bind_keeps_inv(start, key@, given);
        }
    }

    /// Puts a bind in place. Listeners that waited for it join it.
    pub fn insert_bind(&mut self, bind: Bind)
        requires
            old(self).wf(),
            bind.wf(),
        ensures
            final(self).wf(),
            final(self)@ == old(self)@.insert_bind(bind@),
    {
        let key = bind.key.clone();
        self.upsert_bind(key, bind);
    }

    /// Takes a bind out.
    pub fn remove_bind(&mut self, bind: BindKey)
        requires
            old(self).wf(),
        ensures
            final(self).wf(),
            final(self)@ == old(self)@.remove_bind(bind@),
    {
        let ghost start = self@;
        self.binds.remove(bind.as_str());
        let ghost events = self.events@;
        self.events.push(BindEvent::Remove(bind));
        proof {
            assert(event_views(self.events@) =~= event_views(events).push(
                BindEventView::Remove(bind@),
            ));
            assert(self@.binds =~= start.binds.remove(bind@));
            assert(self@ =~= start.remove_bind(bind@));
            remove_bind_keeps_inv(start, bind@);
        }
    }

    /// Puts a listener on its bind. If the bind is not there yet, the listener waits for it.
    pub fn insert_listener(&mut self, lis: Listener, bind_name: BindKey)
        requires
            old(self).wf(),
        ensures
            final(self).wf(),
            final(self)@ == old(self)@.insert_listener(lis@, bind_name@),
    {
        let ghost start = self@;
        let found = match self.binds.get(bind_name.as_str()) {
            Some(b) => Some(b.clone()),
            None => None,
        };
        match found {
            Some(b) => {
                proof {
                    assert(self.binds@.contains_key(bind_name@));
                    assert(start.binds.contains_key(bind_name@));
                    assert(start.binds[bind_name@] == (*b)@);
                }
                let mut bind = b.share();
                let ghost own = bind@;
                let lis = Arc::new(lis);
                bind.listeners.remove(lis.key.as_str());
                bind.listeners.insert(lis);
                proof {
                    assert(own.listeners.remove((*lis)@.key).insert((*lis)@.key, (*lis)@)
                        =~= own.listeners.insert((*lis)@.key, (*lis)@));
                }
                self.upsert_bind(bind_name, bind);
            },
            None => {
                let mut set = match self.pending_listeners.remove(bind_name.as_str()) {
                    Some(s) => s,
                    None => ListenerSet::new(),
                };
                assert(set@ == start.waiting(bind_name@));
                set.insert(Arc::new(lis));
                self.pending_listeners.insert(bind_name, set);
                proof {
                    assert(self@.pending =~= start.insert_listener(lis@, bind_name@).pending);
                    assert(self@ =~= start.insert_listener(lis@, bind_name@));
                    insert_listener_keeps_inv(start, lis@, bind_name@);
                }
            },
        }
    }

    /// Takes a listener off the first bind, in the order in which they came, that has it.
    pub fn remove_listener(&mut self, listener: ListenerKey)
        requires
            old(self).wf(),
        ensures
            final(self).wf(),
            final(self)@ == old(self)@.remove_listener(listener@),
    {
        let ghost start = self@;
        let mut i: usize = 0;
        while i < self.binds.len()
            invariant
                self.wf(),
                self@ == start,
                start == old(self)@,
                i <= self.binds.keys().len(),
                bind_of_listener(start.bind_order.take(i as int), start.binds, listener@) is None,
            decreases self.binds.keys().len() - i,
        {
            let ghost key = self.binds.keys()[i as int];
            proof {
                self.binds.lemma_at(i as int);
                let next = start.bind_order.take(i as int + 1);
                assert(next.drop_last() =~= start.bind_order.take(i as int));
                assert(next.last() == key);
                assert(start.binds.contains_key(key));
                assert(start.binds[key] == (*self.binds.values()[i as int])@);
            }
            if self.binds.value_at(i).listeners.contains(listener.as_str()) {
                let bind_key = self.binds.key_at(i).clone();
                let mut bind = self.binds.value_at(i).share();
                bind.listeners.remove(listener.as_str());
                proof {
                    let own = start.binds[key];
                    assert(bind@ =~= (BindView {
                        listeners: own.listeners.remove(listener@),
                        ..own
                    }));
                    assert(start.bind_order[i as int] == key);
                    lemma_first_bind(start, i as int, listener@);
                }
                self.upsert_bind(bind_key, bind);
                return ;
            }
            i = i + 1;
        }
        assert(start.bind_order.take(i as int) =~= start.bind_order);
    }

    // -----------------------------------------------------------------------------------------
    // Routes
    // -----------------------------------------------------------------------------------------

    fn insert_http_route_target(&mut self, target: RouteTarget, route: Route)
        requires
            old(self).wf(),
        ensures
            final(self).wf(),
            final(self)@ == old(self)@.insert_http_route(target@, route),
    {
        let ghost start = self@;
        let key = RouteTargetRef::from_target(&target).key();
        put_route(&mut self.http_routes, key, route);
        proof {
            assert(self@ =~= start.insert_http_route(target@, route));
            insert_route_keeps_inv(start, target@, route);
        }
    }

    fn insert_tcp_route_target(&mut self, target: RouteTarget, route: TCPRoute)
        requires
            old(self).wf(),
        ensures
            final(self).wf(),
            final(self)@ == old(self)@.insert_tcp_route(target@, route),
    {
        let ghost start = self@;
        let key = RouteTargetRef::from_target(&target).key();
        put_route(&mut self.tcp_routes, key, route);
        proof {
            assert(self@ =~= start.insert_tcp_route(target@, route));
            insert_tcp_route_keeps_inv(start, target@, route);
        }
    }

    /// Puts a route into a group.
    pub fn insert_route_into_group(&mut self, r: Route, ln: RouteGroupKey)
        requires
            old(self).wf(),
        ensures
            final(self).wf(),
            final(self)@ == old(self)@.insert_http_route(RouteTargetView::RouteGroup(ln@), r),
    {
        self.insert_http_route_target(RouteTarget::RouteGroup(ln), r);
    }

    /// Puts a route on a listener.
    pub fn insert_route(&mut self, r: Route, ln: ListenerKey)
        requires
            old(self).wf(),
        ensures
            final(self).wf(),
            final(self)@ == old(self)@.insert_http_route(RouteTargetView::Listener(ln@), r),
    {
        self.insert_http_route_target(RouteTarget::Listener(ln), r);
    }

    /// Puts a TCP route on a listener.
    pub fn insert_tcp_route(&mut self, r: TCPRoute, ln: ListenerKey)
        requires
            old(self).wf(),
        ensures
            final(self).wf(),
            final(self)@ == old(self)@.insert_tcp_route(RouteTargetView::Listener(ln@), r),
    {
        self.insert_tcp_route_target(RouteTarget::Listener(ln), r);
    }

    /// Puts a route on a service.
    pub fn insert_service_route(&mut self, r: Route, service_key: NamespacedHostname)
        requires
            old(self).wf(),
        ensures
            final(self).wf(),
            final(self)@ == old(self)@.insert_http_route(
                RouteTargetView::Service(service_key@),
                r,
            ),
    {
        self.insert_http_route_target(RouteTarget::Service(service_key), r);
    }

    /// Puts a TCP route on a service.
    pub fn insert_service_tcp_route(&mut self, r: TCPRoute, service_key: NamespacedHostname)
        requires
            old(self).wf(),
        ensures
            final(self).wf(),
            final(self)@ == old(self)@.insert_tcp_route(RouteTargetView::Service(service_key@), r),
    {
        self.insert_tcp_route_target(RouteTarget::Service(service_key), r);
    }

    fn remove_http_route(&mut self, route_key: &str) -> (found: bool)
        requires
            old(self).wf(),
        ensures
            final(self).wf(),
            final(self)@ == old(self)@.remove_route(route_key@),
            found == (exists|id: TargetId| #[trigger]
                old(self)@.http_routes.contains_key(id)
                    && old(self)@.http_routes[id].contains_key(route_key@)),
    {
        let ghost start = self@;
        let (rest, found) = drop_route(&self.http_routes, route_key);
        proof {
            let m = self.http_routes@;
            assert forall|id: TargetId| start.http_routes.contains_key(id) == #[trigger] m.contains_key(
                id,
            ) by {}
            if found {
                let id = choose|id: TargetId| #[trigger]
                    m.contains_key(id) && (*m[id])@.contains_key(route_key@);
                assert(start.http_routes.contains_key(id));
            }
            if exists|id: TargetId| #[trigger]
                start.http_routes.contains_key(id) && start.http_routes[id].contains_key(
                    route_key@,
                ) {
                let id = choose|id: TargetId| #[trigger]
                    start.http_routes.contains_key(id) && start.http_routes[id].contains_key(
                        route_key@,
                    );
                assert(m.contains_key(id));
            }
        }
        self.http_routes = rest;
        proof {
            assert(self@ =~= start.remove_route(route_key@));
            removals_keep_inv(start, route_key@);
        }
        found
    }

    fn remove_tcp_route_from_targets(&mut self, route_key: &str) -> (found: bool)
        requires
            old(self).wf(),
        ensures
            final(self).wf(),
            final(self)@ == old(self)@.remove_tcp_route(route_key@),
            found == (exists|id: TargetId| #[trigger]
                old(self)@.tcp_routes.contains_key(id)
                    && old(self)@.tcp_routes[id].contains_key(route_key@)),
    {
        let ghost start = self@;
        let (rest, found) = drop_route(&self.tcp_routes, route_key);
        proof {
            let m = self.tcp_routes@;
            assert forall|id: TargetId| start.tcp_routes.contains_key(id) == #[trigger] m.contains_key(
                id,
            ) by {}
            if found {
                let id = choose|id: TargetId| #[trigger]
                    m.contains_key(id) && (*m[id])@.contains_key(route_key@);
                assert(start.tcp_routes.contains_key(id));
            }
            if exists|id: TargetId| #[trigger]
                start.tcp_routes.contains_key(id) && start.tcp_routes[id].contains_key(route_key@) {
                let id = choose|id: TargetId| #[trigger]
                    start.tcp_routes.contains_key(id) && start.tcp_routes[id].contains_key(
                        route_key@,
                    );
                assert(m.contains_key(id));
            }
        }
        self.tcp_routes = rest;
        proof {
            assert(self@ =~= start.remove_tcp_route(route_key@));
            removals_keep_inv(start, route_key@);
        }
        found
    }

    /// Takes a route out, wherever it is.
    pub fn remove_route(&mut self, route: RouteKey)
        requires
            old(self).wf(),
        ensures
            final(self).wf(),
            final(self)@ == old(self)@.remove_route(route@),
    {
        self.remove_http_route(route.as_str());
    }

    /// Takes a TCP route out, wherever it is.
    pub fn remove_tcp_route(&mut self, tcp_route: RouteKey)
        requires
            old(self).wf(),
        ensures
            final(self).wf(),
            final(self)@ == old(self)@.remove_tcp_route(tcp_route@),
    {
        self.remove_tcp_route_from_targets(tcp_route.as_str());
    }

    /// Takes a group of routes out.
    pub fn remove_route_group(&mut self, rg: RouteGroupKey)
        requires
            old(self).wf(),
        ensures
            final(self).wf(),
            final(self)@ == old(self)@.remove_route_group(rg@),
    {
        let ghost start = self@;
        let key = RouteTargetRef::RouteGroup(rg.as_str()).key();
        self.http_routes.remove(&key);
        proof {
            assert(self@.http_routes =~= start.remove_route_group(rg@).http_routes);
            assert(self@ =~= start.remove_route_group(rg@));
            removals_keep_inv(start, rg@);
        }
    }

    // -----------------------------------------------------------------------------------------
    // Backends and policies
    // -----------------------------------------------------------------------------------------

    /// Puts a backend in place. [`Store::wants_tokenizers`] tells afterwards whether one of the
    /// backends counts tokens.
    pub fn insert_backend(&mut self, key: BackendKey, b: BackendWithPolicies)
        requires
            old(self).wf(),
        ensures
            final(self).wf(),
            final(self)@ == old(self)@.insert_backend(key@, b),
    {
        let ghost start = self@;
        match &b.backend {
            Backend::AI(_, t) => {
                if t.any_tokenize() {
                    self.tokenizes = true;
                }
            },
            _ => {},
        }
        self.backends.insert(key, Arc::new(b));
        proof {
            assert(self@ =~= start.insert_backend(key@, b));
            insert_backend_keeps_inv(start, key@, b);
        }
    }

    /// Whether a backend was put in place that counts tokens, so that the tokenizers are needed.
    pub fn wants_tokenizers(&self) -> (r: bool)
        ensures
            r == self@.tokenizes,
    {
        self.tokenizes
    }

    /// Takes a backend out.
    pub fn remove_backend(&mut self, backend: BackendKey)
        requires
            old(self).wf(),
        ensures
            final(self).wf(),
            final(self)@ == old(self)@.remove_backend(backend@),
    {
        let ghost start = self@;
        self.backends.remove(backend.as_str());
        proof {
            assert(self@ =~= start.remove_backend(backend@));
            removals_keep_inv(start, backend@);
        }
    }

    /// Takes the key of a policy out of the list of its target.
    fn detach(&mut self, target: &TargetKey, key: &str)
        requires
            old(self).rep_ok(),
        ensures
            final(self).rep_ok(),
            final(self)@ == (StoreView {
                by_target: if old(self)@.by_target.contains_key(target_id(*target)) {
                    old(self)@.by_target.insert(
                        target_id(*target),
                        crate::keyed::without(old(self)@.by_target[target_id(*target)], key@),
                    )
                } else {
                    old(self)@.by_target
                },
                ..old(self)@
            }),
    {
        let ghost start = self@;
        let ghost id = target_id(*target);
        match self.policies_by_target.remove(target) {
            Some(mut set) => {
                assert(start.by_target.contains_key(id));
                set.remove(key);
                self.policies_by_target.insert(copy_key(target), set);
                assert(self@.by_target =~= start.by_target.insert(
                    id,
                    crate::keyed::without(start.by_target[id], key@),
                ));
            },
            None => {
                assert(self@.by_target =~= start.by_target);
            },
        }
    }

    /// Attaches a policy to its target, in place of the one with its key.
    pub fn insert_policy(&mut self, pol: TargetedPolicy)
        requires
            old(self).wf(),
        ensures
            final(self).wf(),
            final(self)@ == old(self)@.insert_policy(pol),
    {
        let ghost start = self@;
        let ghost given = pol;
        let pol = Arc::new(pol);
        let key = pol.key.clone();
        let replaced = self.policies_by_key.insert(pol.key.clone(), pol.clone());
        match &replaced {
            Some(old_pol) => {
                let target = old_pol.target.key();
                self.detach(&target, key.as_str());
            },
            None => {},
        }
        assert(self@.by_target == start.detached(pol.key@));
        let ghost rest = self@.by_target;
        let target = pol.target.key();
        let ghost id = target_id(target);
        let mut set = match self.policies_by_target.remove(&target) {
            Some(s) => s,
            None => StringSet::new(),
        };
        assert(set.items() == keys_at(rest, id));
        set.insert(key);
        self.policies_by_target.insert(target, set);
        proof {
            assert(self@.by_target =~= rest.insert(id, added(keys_at(rest, id), pol.key@)));
            assert(self@.policy_order =~= added(start.policy_order, pol.key@));
            assert(self@ =~= start.insert_policy(given));
            insert_policy_keeps_inv(start, given);
        }
    }

    /// Detaches a policy.
    pub fn remove_policy(&mut self, pol: PolicyKey)
        requires
            old(self).wf(),
        ensures
            final(self).wf(),
            final(self)@ == old(self)@.remove_policy(pol@),
    {
        let ghost start = self@;
        match self.policies_by_key.remove(pol.as_str()) {
            Some(old_pol) => {
                let target = old_pol.target.key();
                self.detach(&target, pol.as_str());
            },
            None => {},
        }
        proof {
            assert(self@.policies =~= start.policies.remove(pol@));
            assert(self@ =~= start.remove_policy(pol@));
            remove_policy_keeps_inv(start, pol@);
        }
    }

    // -----------------------------------------------------------------------------------------
    // Resources of a control plane
    // -----------------------------------------------------------------------------------------

    /// Remembers what a resource was stored as.
    pub fn note_resource(&mut self, name: String, kind: ResourceKind)
        requires
            old(self).wf(),
        ensures
            final(self).wf(),
            final(self)@ == old(self)@.note_resource(name@, kind@),
    {
        let ghost start = self@;
        self.resources.insert(name, kind);
        assert(self@.resources =~= start.resources.insert(name@, kind@));
        assert(self@ =~= start.note_resource(name@, kind@));
    }

    /// Takes out what a resource was stored as. A resource that is not known is passed over.
    pub fn remove_resource(&mut self, res: &str)
        requires
            old(self).wf(),
        ensures
            final(self).wf(),
            final(self)@ == old(self)@.remove_resource(res@),
    {
        let ghost start = self@;
        match self.resources.remove(res) {
            Some(kind) => {
                proof {
                    assert(self@.resources =~= start.resources.remove(res@));
                    assert(self@ =~= (StoreView {
                        resources: start.resources.remove(res@),
                        ..start
                    }));
                    assert(start.resources[res@] == kind@);
                    assert(self@.inv());
                }
                match kind {
                    ResourceKind::Policy(n) => self.remove_policy(n),
                    ResourceKind::Bind(n) => self.remove_bind(n),
                    ResourceKind::Route(n) => self.remove_route(n),
                    ResourceKind::TcpRoute(n) => self.remove_tcp_route(n),
                    ResourceKind::Listener(n) => self.remove_listener(n),
                    ResourceKind::Backend(n) => self.remove_backend(n),
                }
            },
            None => {
                assert(self@.resources =~= start.resources);
                assert(self@ =~= start);
            },
        }
    }

    // -----------------------------------------------------------------------------------------
    // Events
    // -----------------------------------------------------------------------------------------

    /// Takes the place of the one subscriber to the events. There may be none before.
    pub fn subscribe(&mut self)
        requires
            old(self).wf(),
            !old(self)@.subscribed,
        ensures
            final(self).wf(),
            final(self)@ == (StoreView { subscribed: true, ..old(self)@ }),
    {
        let ghost start = self@;
        self.subscribed = true;
        assert(self@ =~= (StoreView { subscribed: true, ..start }));
    }

    /// Whether the events have a subscriber.
    pub fn is_subscribed(&self) -> (r: bool)
        ensures
            r == self@.subscribed,
    {
        self.subscribed
    }

    /// Takes the events that came since they were last taken, in order.
    pub fn take_events(&mut self) -> (r: Vec<BindEvent>)
        requires
            old(self).wf(),
        ensures
            final(self).wf(),
            event_views(r@) == old(self)@.events,
            final(self)@ == (StoreView { events: Seq::empty(), ..old(self)@ }),
    {
        let ghost start = self@;
        let mut out: Vec<BindEvent> = Vec::new();
        std::mem::swap(&mut self.events, &mut out);
        assert(self@.events =~= Seq::<BindEventView>::empty());
        assert(self@ =~= (StoreView { events: Seq::empty(), ..start }));
        out
    }
}

/// The first bind that has the listener, if none of those before it has.
proof fn lemma_first_bind(s: StoreView, i: int, listener: Text)
    requires
        0 <= i < s.bind_order.len(),
        bind_of_listener(s.bind_order.take(i), s.binds, listener) is None,
        s.binds[s.bind_order[i]].listeners.contains_key(listener),
    ensures
        bind_of_listener(s.bind_order, s.binds, listener) == Some(s.bind_order[i]),
{
    let n = s.bind_order.len() as int;
    assert(s.bind_order.take(i + 1).drop_last() =~= s.bind_order.take(i));
    lemma_bind_stays(s, i + 1, n, listener);
    assert(s.bind_order.take(n) =~= s.bind_order);
}

proof fn lemma_bind_stays(s: StoreView, i: int, n: int, listener: Text)
    requires
        0 <= i <= n <= s.bind_order.len(),
        bind_of_listener(s.bind_order.take(i), s.binds, listener) is Some,
    ensures
        bind_of_listener(s.bind_order.take(n), s.binds, listener) == bind_of_listener(
            s.bind_order.take(i),
            s.binds,
            listener,
        ),
    decreases n - i,
{
    if i < n {
        lemma_bind_stays(s, i, n - 1, listener);
        assert(s.bind_order.take(n).drop_last() =~= s.bind_order.take(n - 1));
    }
}

} // verus!
