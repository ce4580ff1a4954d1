//! Changes of the store as a whole: synchronization with a local configuration, changes that a
//! control plane pushes, and a dump of everything.

use std::sync::Arc;

use vstd::prelude::*;

use crate::keyed::{added, lemma_added, lemma_without, without, StringMap, StringSet};
use crate::store::binds::{groups_of, mesh_of, Store};
use crate::store::model::{distinct, RouteTargetView, StoreView};
use crate::store::xds::{after_updates, rejections, RejectedConfig, XdsUpdate};
use crate::text::{ascending, sorted_texts, texts, views, Text};
use crate::types::agent::{
    BackendWithPolicies, Bind, BindView, Keyed, Listener, ListenerKey, ListenerView,
    NamespacedHostname, Route, RouteGroupKey, RouteSet, TCPRoute, TCPRouteSet, TargetedPolicy,
};

verus! {

// ---------------------------------------------------------------------------------------------
// Dumps
// ---------------------------------------------------------------------------------------------

/// The routes that belong to no listener.
#[derive(Debug)]
pub struct RoutesDump {
    pub http_mesh: Vec<(NamespacedHostname, Arc<RouteSet>)>,
    pub tcp_mesh: Vec<(NamespacedHostname, Arc<TCPRouteSet>)>,
    pub route_groups: Vec<(RouteGroupKey, Arc<RouteSet>)>,
}

/// A listener with its routes.
#[derive(Debug)]
pub struct DumpListener {
    pub listener: Arc<Listener>,
    pub routes: Option<Arc<RouteSet>>,
    pub tcp_routes: Option<Arc<TCPRouteSet>>,
}

/// A bind with its listeners, in the order of their keys.
#[derive(Debug)]
pub struct DumpBind {
    pub bind: Arc<Bind>,
    pub listeners: StringMap<DumpListener>,
}

/// Everything that the store holds, in the order of the keys.
#[derive(Debug)]
pub struct Dump {
    pub binds: Vec<DumpBind>,
    pub routes: RoutesDump,
    pub policies: Vec<Arc<TargetedPolicy>>,
    pub backends: Vec<Arc<BackendWithPolicies>>,
}

/// Whether the first sequence lists the keys of the second once each, in ascending order.
pub open spec fn in_order(sorted: Seq<Text>, keys: Seq<Text>) -> bool {
    &&& ascending(sorted)
    &&& sorted.no_duplicates()
    &&& forall|k: Text| #[trigger] sorted.contains(k) <==> keys.contains(k)
}

/// What the dump of a listener says of it and of its routes.
pub open spec fn listener_dumped(d: DumpListener, s: StoreView, l: ListenerView) -> bool {
    let id = RouteTargetView::Listener(l.key).id();
    &&& (*d.listener)@ == l
    &&& match d.routes {
        Some(r) => s.http_routes.contains_key(id) && (*r)@ == s.http_routes[id] && (*r).wf(),
        None => !s.http_routes.contains_key(id),
    }
    &&& match d.tcp_routes {
        Some(r) => s.tcp_routes.contains_key(id) && (*r)@ == s.tcp_routes[id] && (*r).wf(),
        None => !s.tcp_routes.contains_key(id),
    }
}

/// What the dump of a bind says of it and of its listeners.
pub open spec fn bind_dumped(d: DumpBind, s: StoreView, b: BindView) -> bool {
    &&& (*d.bind)@ == b
    &&& d.listeners.wf()
    &&& ascending(d.listeners.keys())
    &&& forall|k: Text| #[trigger]
        d.listeners@.contains_key(k) <==> b.listeners.contains_key(k)
    &&& forall|k: Text| #[trigger]
        d.listeners@.contains_key(k) ==> listener_dumped(d.listeners@[k], s, b.listeners[k])
}

/// What a dump says of the store.
pub open spec fn dumped(d: Dump, s: StoreView) -> bool {
    &&& exists|order: Seq<Text>| #[trigger]
        in_order(order, s.bind_order) && order.len() == d.binds@.len() && forall|i: int|
            0 <= i < order.len() ==> bind_dumped(
                #[trigger] d.binds@[i],
                s,
                s.binds[order[i]],
            )
    &&& exists|order: Seq<Text>| #[trigger]
        in_order(order, s.policy_order) && d.policies@ == order.map_values(
            |k: Text| s.policies[k],
        )
    &&& exists|order: Seq<Text>| #[trigger]
        backends_in_order(order, s) && d.backends@ == order.map_values(|k: Text| s.backends[k])
    &&& mesh_of(d.routes.http_mesh@, s.http_routes)
    &&& mesh_of(d.routes.tcp_mesh@, s.tcp_routes)
    &&& groups_of(d.routes.route_groups@, s.http_routes)
}

/// Whether the sequence lists the keys of the backends once each, in ascending order.
pub open spec fn backends_in_order(sorted: Seq<Text>, s: StoreView) -> bool {
    &&& ascending(sorted)
    &&& sorted.no_duplicates()
    &&& forall|k: Text| #[trigger] sorted.contains(k) <==> s.backends.contains_key(k)
}

/// Sequences with the same items are without repetitions together.
proof fn lemma_same_items(a: Seq<Text>, b: Seq<Text>)
    requires
        a.to_multiset() == b.to_multiset(),
        b.no_duplicates(),
    ensures
        a.no_duplicates(),
        forall|k: Text| #[trigger] a.contains(k) <==> b.contains(k),
{
    broadcast use vstd::seq_lib::group_to_multiset_ensures;

    b.lemma_multiset_has_no_duplicates();
    a.lemma_multiset_has_no_duplicates_conv();
    assert forall|k: Text| #[trigger] a.contains(k) <==> b.contains(k) by {
        assert(a.contains(k) <==> a.to_multiset().count(k) > 0);
        assert(b.contains(k) <==> b.to_multiset().count(k) > 0);
    }
}

fn sort_keys(keys: Vec<String>) -> (r: Vec<String>)
    requires
        texts(keys@).no_duplicates(),
    ensures
        in_order(texts(r@), texts(keys@)),
{
    let ghost given = texts(keys@);
    let r = sorted_texts(keys);
    proof {
        lemma_same_items(texts(r@), given);
    }
    r
}

fn dump_listeners(store: &Store, bind: &Bind) -> (r: StringMap<DumpListener>)
    requires
        store.wf(),
        bind.wf(),
    ensures
        r.wf(),
        ascending(r.keys()),
        forall|k: Text| #[trigger] r@.contains_key(k) <==> bind@.listeners.contains_key(k),
        forall|k: Text| #[trigger]
            r@.contains_key(k) ==> listener_dumped(r@[k], store@, bind@.listeners[k]),
{
    let keys = sort_keys(bind.listeners.inner.key_list());
    let ghost order = texts(keys@);
    let mut out: StringMap<DumpListener> = StringMap::new();
    let mut i: usize = 0;
    while i < keys.len()
        invariant
            store.wf(),
            bind.wf(),
            order == texts(keys@),
            in_order(order, bind.listeners.inner.keys()),
            i <= order.len(),
            out.wf(),
            out.keys() == order.take(i as int),
            forall|k: Text| #[trigger]
                out@.contains_key(k) ==> listener_dumped(out@[k], store@, bind@.listeners[k]),
        decreases order.len() - i,
    {
        let ghost k = order[i as int];
        proof {
            assert(order.contains(k));
            assert(bind.listeners.inner.keys().contains(k));
            assert(bind@.listeners.contains_key(k));
            assert(!order.take(i as int).contains(k)) by {
                if order.take(i as int).contains(k) {
                    let j = order.take(i as int).index_of(k);
                    assert(order[j] == k);
                }
            }
        }
        match bind.listeners.get(keys[i].as_str()) {
            Some(l) => {
                assert((**l)@.key == k);
                let entry = DumpListener {
                    listener: l.clone(),
                    routes: store.get_listener_routes(&l.key),
                    tcp_routes: store.get_listener_tcp_routes(&l.key),
                };
                out.insert(keys[i].clone(), entry);
            },
            None => {
                assert(false);
            },
        }
        i = i + 1;
        assert(order.take(i as int) =~= order.take(i as int - 1).push(k));
    }
    proof {
        assert(order.take(i as int) =~= order);
        assert forall|k: Text| #[trigger] out@.contains_key(k) <==> bind@.listeners.contains_key(
            k,
        ) by {
            assert(out@.contains_key(k) <==> order.contains(k));
            assert(order.contains(k) <==> bind.listeners.inner.keys().contains(k));
        }
    }
    out
}

impl Store {
    /// Everything that the store holds.
    pub fn dump(&self) -> (r: Dump)
        requires
            self.wf(),
        ensures
            dumped(r, self@),
    {
        let ghost s = self@;
        proof {
            self.lemma_inv();
        }
        let bind_keys = sort_keys(self.bind_keys());
        let ghost bind_order = texts(bind_keys@);
        let mut binds: Vec<DumpBind> = Vec::new();
        let mut i: usize = 0;
        while i < bind_keys.len()
            invariant
                self.wf(),
                s == self@,
                s.inv(),
                bind_order == texts(bind_keys@),
                in_order(bind_order, s.bind_order),
                i <= bind_order.len(),
                binds@.len() == i,
                forall|j: int|
                    0 <= j < i ==> bind_dumped(#[trigger] binds@[j], s, s.binds[bind_order[j]]),
            decreases bind_order.len() - i,
        {
            assert(bind_order.contains(bind_order[i as int]));
            assert(s.bind_order.contains(bind_order[i as int]));
            assert(s.binds.contains_key(bind_order[i as int]));
            match self.bind(&bind_keys[i]) {
                Some(bind) => {
                    let listeners = dump_listeners(self, &bind);
                    binds.push(DumpBind { bind, listeners });
                },
                None => {
                    assert(false);
                },
            }
            i = i + 1;
        }
        let policy_keys = sort_keys(self.policy_keys());
        let ghost policy_order = texts(policy_keys@);
        let mut policies: Vec<Arc<TargetedPolicy>> = Vec::new();
        let mut i: usize = 0;
        while i < policy_keys.len()
            invariant
                self.wf(),
                s == self@,
                s.inv(),
                policy_order == texts(policy_keys@),
                in_order(policy_order, s.policy_order),
                i <= policy_order.len(),
                policies@.len() == i,
                forall|j: int|
                    0 <= j < i ==> #[trigger] policies@[j] == s.policies[policy_order[j]],
            decreases policy_order.len() - i,
        {
            assert(policy_order.contains(policy_order[i as int]));
            assert(s.policy_order.contains(policy_order[i as int]));
            match self.policy(policy_keys[i].as_str()) {
                Some(p) => {
                    policies.push(p.clone());
                },
                None => {
                    assert(false);
                },
            }
            i = i + 1;
        }
        let backend_keys = sort_keys(self.backend_keys());
        let ghost backend_order = texts(backend_keys@);
        assert(backends_in_order(backend_order, s));
        let mut backends: Vec<Arc<BackendWithPolicies>> = Vec::new();
        let mut i: usize = 0;
        while i < backend_keys.len()
            invariant
                self.wf(),
                s == self@,
                backend_order == texts(backend_keys@),
                backends_in_order(backend_order, s),
                i <= backend_order.len(),
                backends@.len() == i,
                forall|j: int|
                    0 <= j < i ==> #[trigger] backends@[j] == s.backends[backend_order[j]],
            decreases backend_order.len() - i,
        {
            assert(backend_order.contains(backend_order[i as int]));
            match self.backend(&backend_keys[i]) {
                Some(b) => {
                    backends.push(b);
                },
                None => {
                    assert(false);
                },
            }
            i = i + 1;
        }
        let d = Dump {
            binds,
            routes: RoutesDump {
                http_mesh: self.http_mesh(),
                tcp_mesh: self.tcp_mesh(),
                route_groups: self.route_groups(),
            },
            policies,
            backends,
        };
        proof {
            assert(d.policies@ =~= policy_order.map_values(|k: Text| s.policies[k]));
            assert(d.backends@ =~= backend_order.map_values(|k: Text| s.backends[k]));
            assert(in_order(bind_order, s.bind_order));
            assert(in_order(policy_order, s.policy_order));
        }
        d
    }
}

// ---------------------------------------------------------------------------------------------
// Synchronization with a local configuration
// ---------------------------------------------------------------------------------------------

/// The keys that the last synchronization put in place.
#[derive(Debug)]
pub struct PreviousState {
    pub binds: StringSet,
    pub routes: StringSet,
    pub tcp_routes: StringSet,
    pub policies: StringSet,
    pub backends: StringSet,
    pub route_groups: StringSet,
}

/// What a [`PreviousState`] holds.
#[verifier::ext_equal]
pub struct PreviousStateView {
    pub binds: Seq<Text>,
    pub routes: Seq<Text>,
    pub tcp_routes: Seq<Text>,
    pub policies: Seq<Text>,
    pub backends: Seq<Text>,
    pub route_groups: Seq<Text>,
}

impl View for PreviousState {
    type V = PreviousStateView;

    open spec fn view(&self) -> PreviousStateView {
        PreviousStateView {
            binds: self.binds.items(),
            routes: self.routes.items(),
            tcp_routes: self.tcp_routes.items(),
            policies: self.policies.items(),
            backends: self.backends.items(),
            route_groups: self.route_groups.items(),
        }
    }
}

impl PreviousState {
    /// No key is listed twice.
    pub open spec fn wf(&self) -> bool {
        &&& self.binds.wf()
        &&& self.routes.wf()
        &&& self.tcp_routes.wf()
        &&& self.policies.wf()
        &&& self.backends.wf()
        &&& self.route_groups.wf()
    }

    /// Nothing was put in place yet.
    pub fn default() -> (r: Self)
        ensures
            r.wf(),
            r@ == (PreviousStateView {
                binds: Seq::empty(),
                routes: Seq::empty(),
                tcp_routes: Seq::empty(),
                policies: Seq::empty(),
                backends: Seq::empty(),
                route_groups: Seq::empty(),
            }),
    {
        PreviousState {
            binds: StringSet::new(),
            routes: StringSet::new(),
            tcp_routes: StringSet::new(),
            policies: StringSet::new(),
            backends: StringSet::new(),
            route_groups: StringSet::new(),
        }
    }
}

/// The keys of a sequence without those of another.
pub open spec fn minus(s: Seq<Text>, keys: Seq<Text>) -> Seq<Text>
    decreases keys.len(),
{
    if keys.len() == 0 {
        s
    } else {
        without(minus(s, keys.drop_last()), keys.last())
    }
}

/// What is left of a sequence holds what the other does not.
pub proof fn lemma_minus(s: Seq<Text>, keys: Seq<Text>)
    requires
        s.no_duplicates(),
    ensures
        minus(s, keys).no_duplicates(),
        forall|k: Text| #[trigger] minus(s, keys).contains(k) <==> (s.contains(k) && !keys.contains(k)),
    decreases keys.len(),
{
    if keys.len() > 0 {
        let rest = keys.drop_last();
        lemma_minus(s, rest);
        lemma_without(minus(s, rest), keys.last());
        assert forall|k: Text| #[trigger] minus(s, keys).contains(k) <==> (s.contains(k)
            && !keys.contains(k)) by {
            lemma_last_or_rest(keys, k);
        }
    }
}

/// An item is the last one or among those before it.
pub proof fn lemma_last_or_rest(keys: Seq<Text>, k: Text)
    requires
        keys.len() > 0,
    ensures
        keys.contains(k) <==> (keys.drop_last().contains(k) || k == keys.last()),
{
    let rest = keys.drop_last();
    if keys.contains(k) {
        let i = keys.index_of(k);
        if i < rest.len() {
            assert(rest[i] == k);
        }
    }
    if rest.contains(k) {
        let i = rest.index_of(k);
        assert(keys[i] == k);
    }
    assert(keys[keys.len() - 1] == keys.last());
}

/// The distinct keys of a sequence are its keys.
pub proof fn lemma_distinct(s: Seq<Text>)
    ensures
        distinct(s).no_duplicates(),
        forall|k: Text| #[trigger] distinct(s).contains(k) <==> s.contains(k),
    decreases s.len(),
{
    if s.len() > 0 {
        lemma_distinct(s.drop_last());
        lemma_added(distinct(s.drop_last()), s.last());
        assert forall|k: Text| #[trigger] distinct(s).contains(k) <==> s.contains(k) by {
            lemma_last_or_rest(s, k);
        }
    }
}

/// The keys of binds.
pub open spec fn bind_texts(binds: Seq<BindView>) -> Seq<Text> {
    binds.map_values(|b: BindView| b.key)
}

/// The keys of routes.
pub open spec fn route_texts<R: Keyed>(routes: Seq<R>) -> Seq<Text> {
    routes.map_values(|r: R| r.key_text())
}

/// The keys of the routes of all owners.
pub open spec fn all_route_texts<R: Keyed>(routes: Seq<(String, Vec<R>)>) -> Seq<Text>
    decreases routes.len(),
{
    if routes.len() == 0 {
        Seq::empty()
    } else {
        all_route_texts(routes.drop_last()) + route_texts(routes.last().1@)
    }
}

/// The keys of policies.
pub open spec fn policy_texts(policies: Seq<TargetedPolicy>) -> Seq<Text> {
    policies.map_values(|p: TargetedPolicy| p.key@)
}

/// The keys of backends.
pub open spec fn backend_texts(backends: Seq<BackendWithPolicies>) -> Seq<Text> {
    backends.map_values(|b: BackendWithPolicies| b.backend@.name_text())
}

/// The keys of groups.
pub open spec fn group_texts(groups: Seq<(RouteGroupKey, Vec<Route>)>) -> Seq<Text> {
    groups.map_values(|g: (RouteGroupKey, Vec<Route>)| g.0@)
}

impl StoreView {
    /// Puts binds in place, one after the other.
    pub open spec fn insert_binds(self, binds: Seq<BindView>) -> StoreView
        decreases binds.len(),
    {
        if binds.len() == 0 {
            self
        } else {
            self.insert_binds(binds.drop_last()).insert_bind(binds.last())
        }
    }

    /// Puts backends in place under their names.
    pub open spec fn insert_backends(self, backends: Seq<BackendWithPolicies>) -> StoreView
        decreases backends.len(),
    {
        if backends.len() == 0 {
            self
        } else {
            self.insert_backends(backends.drop_last()).insert_backend(
                backends.last().backend@.name_text(),
                backends.last(),
            )
        }
    }

    /// Puts routes under a target.
    pub open spec fn insert_routes(self, target: RouteTargetView, routes: Seq<Route>) -> StoreView
        decreases routes.len(),
    {
        if routes.len() == 0 {
            self
        } else {
            self.insert_routes(target, routes.drop_last()).insert_http_route(target, routes.last())
        }
    }

    /// Puts TCP routes under a target.
    pub open spec fn insert_tcp_routes(
        self,
        target: RouteTargetView,
        routes: Seq<TCPRoute>,
    ) -> StoreView
        decreases routes.len(),
    {
        if routes.len() == 0 {
            self
        } else {
            self.insert_tcp_routes(target, routes.drop_last()).insert_tcp_route(
                target,
                routes.last(),
            )
        }
    }

    /// Puts the routes of listeners in place.
    pub open spec fn insert_listener_routes(
        self,
        routes: Seq<(ListenerKey, Vec<Route>)>,
    ) -> StoreView
        decreases routes.len(),
    {
        if routes.len() == 0 {
            self
        } else {
            self.insert_listener_routes(routes.drop_last()).insert_routes(
                RouteTargetView::Listener(routes.last().0@),
                routes.last().1@,
            )
        }
    }

    /// Puts the TCP routes of listeners in place.
    pub open spec fn insert_listener_tcp_routes(
        self,
        routes: Seq<(ListenerKey, Vec<TCPRoute>)>,
    ) -> StoreView
        decreases routes.len(),
    {
        if routes.len() == 0 {
            self
        } else {
            self.insert_listener_tcp_routes(routes.drop_last()).insert_tcp_routes(
                RouteTargetView::Listener(routes.last().0@),
                routes.last().1@,
            )
        }
    }

    /// Puts the routes of groups in place.
    pub open spec fn insert_route_groups(
        self,
        groups: Seq<(RouteGroupKey, Vec<Route>)>,
    ) -> StoreView
        decreases groups.len(),
    {
        if groups.len() == 0 {
            self
        } else {
            self.insert_route_groups(groups.drop_last()).insert_routes(
                RouteTargetView::RouteGroup(groups.last().0@),
                groups.last().1@,
            )
        }
    }

    /// Attaches policies, one after the other.
    pub open spec fn insert_policies(self, policies: Seq<TargetedPolicy>) -> StoreView
        decreases policies.len(),
    {
        if policies.len() == 0 {
            self
        } else {
            self.insert_policies(policies.drop_last()).insert_policy(policies.last())
        }
    }

    /// Takes binds out.
    pub open spec fn remove_binds(self, keys: Seq<Text>) -> StoreView
        decreases keys.len(),
    {
        if keys.len() == 0 {
            self
        } else {
            self.remove_binds(keys.drop_last()).remove_bind(keys.last())
        }
    }

    /// Takes routes out.
    pub open spec fn remove_routes(self, keys: Seq<Text>) -> StoreView
        decreases keys.len(),
    {
        if keys.len() == 0 {
            self
        } else {
            self.remove_routes(keys.drop_last()).remove_route(keys.last())
        }
    }

    /// Takes TCP routes out.
    pub open spec fn remove_tcp_routes(self, keys: Seq<Text>) -> StoreView
        decreases keys.len(),
    {
        if keys.len() == 0 {
            self
        } else {
            self.remove_tcp_routes(keys.drop_last()).remove_tcp_route(keys.last())
        }
    }

    /// Detaches policies.
    pub open spec fn remove_policies(self, keys: Seq<Text>) -> StoreView
        decreases keys.len(),
    {
        if keys.len() == 0 {
            self
        } else {
            self.remove_policies(keys.drop_last()).remove_policy(keys.last())
        }
    }

    /// Takes backends out.
    pub open spec fn remove_backends(self, keys: Seq<Text>) -> StoreView
        decreases keys.len(),
    {
        if keys.len() == 0 {
            self
        } else {
            self.remove_backends(keys.drop_last()).remove_backend(keys.last())
        }
    }

    /// Takes groups of routes out.
    pub open spec fn remove_route_groups(self, keys: Seq<Text>) -> StoreView
        decreases keys.len(),
    {
        if keys.len() == 0 {
            self
        } else {
            self.remove_route_groups(keys.drop_last()).remove_route_group(keys.last())
        }
    }

    /// Puts everything of a local configuration in place.
    pub open spec fn with_local(
        self,
        binds: Seq<BindView>,
        listener_routes: Seq<(ListenerKey, Vec<Route>)>,
        listener_tcp_routes: Seq<(ListenerKey, Vec<TCPRoute>)>,
        policies: Seq<TargetedPolicy>,
        backends: Seq<BackendWithPolicies>,
        route_groups: Seq<(RouteGroupKey, Vec<Route>)>,
    ) -> StoreView {
        self.insert_binds(binds).insert_backends(backends).insert_listener_routes(
            listener_routes,
        ).insert_listener_tcp_routes(listener_tcp_routes).insert_policies(
            policies,
        ).insert_route_groups(route_groups)
    }

    /// Takes everything out that is listed.
    pub open spec fn without_all(self, stale: PreviousStateView) -> StoreView {
        self.remove_binds(stale.binds).remove_routes(stale.routes).remove_tcp_routes(
            stale.tcp_routes,
        ).remove_policies(stale.policies).remove_backends(stale.backends).remove_route_groups(
            stale.route_groups,
        )
    }
}

/// The keys that a local configuration puts in place.
pub open spec fn local_keys(
    binds: Seq<BindView>,
    listener_routes: Seq<(ListenerKey, Vec<Route>)>,
    listener_tcp_routes: Seq<(ListenerKey, Vec<TCPRoute>)>,
    policies: Seq<TargetedPolicy>,
    backends: Seq<BackendWithPolicies>,
    route_groups: Seq<(RouteGroupKey, Vec<Route>)>,
) -> PreviousStateView {
    PreviousStateView {
        binds: bind_texts(binds),
        routes: all_route_texts(listener_routes),
        tcp_routes: all_route_texts(listener_tcp_routes),
        policies: policy_texts(policies),
        backends: backend_texts(backends),
        route_groups: group_texts(route_groups),
    }
}

/// The keys without repetitions.
pub open spec fn all_distinct(keys: PreviousStateView) -> PreviousStateView {
    PreviousStateView {
        binds: distinct(keys.binds),
        routes: distinct(keys.routes),
        tcp_routes: distinct(keys.tcp_routes),
        policies: distinct(keys.policies),
        backends: distinct(keys.backends),
        route_groups: distinct(keys.route_groups),
    }
}

/// The keys of the last synchronization that are no longer among those of this one.
pub open spec fn stale_keys(prev: PreviousStateView, keys: PreviousStateView) -> PreviousStateView {
    PreviousStateView {
        binds: minus(prev.binds, keys.binds),
        routes: minus(prev.routes, keys.routes),
        tcp_routes: minus(prev.tcp_routes, keys.tcp_routes),
        policies: minus(prev.policies, keys.policies),
        backends: minus(prev.backends, keys.backends),
        route_groups: minus(prev.route_groups, keys.route_groups),
    }
}

/// Notes a key: it is no longer stale, and it is in place.
fn note(stale: &mut StringSet, next: &mut StringSet, key: &String)
    requires
        old(stale).wf(),
        old(next).wf(),
    ensures
        final(stale).wf(),
        final(next).wf(),
        final(stale).items() == without(old(stale).items(), key@),
        final(next).items() == added(old(next).items(), key@),
{
    stale.remove(key.as_str());
    next.insert(key.clone());
}

impl Store {
    fn sync_routes(
        &mut self,
        listener: &ListenerKey,
        routes: Vec<Route>,
        stale: &mut StringSet,
        next: &mut StringSet,
        Ghost(seen): Ghost<Seq<Text>>,
        Ghost(first): Ghost<Seq<Text>>,
    )
        requires
            old(self).wf(),
            old(stale).wf(),
            old(next).wf(),
            old(stale).items() == minus(first, seen),
            old(next).items() == distinct(seen),
        ensures
            final(self).wf(),
            final(stale).wf(),
            final(next).wf(),
            final(self)@ == old(self)@.insert_routes(RouteTargetView::Listener(listener@), routes@),
            final(stale).items() == minus(first, seen + route_texts(routes@)),
            final(next).items() == distinct(seen + route_texts(routes@)),
    {
        let ghost start = self@;
        let ghost all = routes@;
        let ghost target = RouteTargetView::Listener(listener@);
        assert(seen + route_texts(all.take(0)) =~= seen);
        for route in it: routes.into_iter()
            invariant
                it.seq() == all,
                self.wf(),
                stale.wf(),
                next.wf(),
                target == RouteTargetView::Listener(listener@),
                self@ == start.insert_routes(target, all.take(it.index() as int)),
                stale.items() == minus(first, seen + route_texts(all.take(it.index() as int))),
                next.items() == distinct(seen + route_texts(all.take(it.index() as int))),
        {
            let ghost n = it.index() as int;
            proof {
                assert(all.take(n + 1).drop_last() =~= all.take(n));
                let keys = seen + route_texts(all.take(n + 1));
                assert(keys.drop_last() =~= seen + route_texts(all.take(n)));
                assert(keys.last() == route.key@);
            }
            note(stale, next, &route.key);
            self.insert_route(route, listener.clone());
        }
        assert(all.take(all.len() as int) =~= all);
    }

    fn sync_tcp_routes(
        &mut self,
        listener: &ListenerKey,
        routes: Vec<TCPRoute>,
        stale: &mut StringSet,
        next: &mut StringSet,
        Ghost(seen): Ghost<Seq<Text>>,
        Ghost(first): Ghost<Seq<Text>>,
    )
        requires
            old(self).wf(),
            old(stale).wf(),
            old(next).wf(),
            old(stale).items() == minus(first, seen),
            old(next).items() == distinct(seen),
        ensures
            final(self).wf(),
            final(stale).wf(),
            final(next).wf(),
            final(self)@ == old(self)@.insert_tcp_routes(
                RouteTargetView::Listener(listener@),
                routes@,
            ),
            final(stale).items() == minus(first, seen + route_texts(routes@)),
            final(next).items() == distinct(seen + route_texts(routes@)),
    {
        let ghost start = self@;
        let ghost all = routes@;
        let ghost target = RouteTargetView::Listener(listener@);
        assert(seen + route_texts(all.take(0)) =~= seen);
        for route in it: routes.into_iter()
            invariant
                it.seq() == all,
                self.wf(),
                stale.wf(),
                next.wf(),
                target == RouteTargetView::Listener(listener@),
                self@ == start.insert_tcp_routes(target, all.take(it.index() as int)),
                stale.items() == minus(first, seen + route_texts(all.take(it.index() as int))),
                next.items() == distinct(seen + route_texts(all.take(it.index() as int))),
        {
            let ghost n = it.index() as int;
            proof {
                assert(all.take(n + 1).drop_last() =~= all.take(n));
                let keys = seen + route_texts(all.take(n + 1));
                assert(keys.drop_last() =~= seen + route_texts(all.take(n)));
                assert(keys.last() == route.key@);
            }
            note(stale, next, &route.key);
            self.insert_tcp_route(route, listener.clone());
        }
        assert(all.take(all.len() as int) =~= all);
    }

    fn sync_group(&mut self, group: &RouteGroupKey, routes: Vec<Route>)
        requires
            old(self).wf(),
        ensures
            final(self).wf(),
            final(self)@ == old(self)@.insert_routes(RouteTargetView::RouteGroup(group@), routes@),
    {
        let ghost start = self@;
        let ghost all = routes@;
        let ghost target = RouteTargetView::RouteGroup(group@);
        for route in it: routes.into_iter()
            invariant
                it.seq() == all,
                self.wf(),
                target == RouteTargetView::RouteGroup(group@),
                self@ == start.insert_routes(target, all.take(it.index() as int)),
        {
            let ghost n = it.index() as int;
            assert(all.take(n + 1).drop_last() =~= all.take(n));
            self.insert_route_into_group(route, group.clone());
        }
        assert(all.take(all.len() as int) =~= all);
    }

    /// Puts everything of a local configuration in place and takes out what the last
    /// synchronization put in place and this one does not. Returns the keys that it put in place.
    pub fn sync_local(
        &mut self,
        binds: Vec<Bind>,
        listener_routes: Vec<(ListenerKey, Vec<Route>)>,
        listener_tcp_routes: Vec<(ListenerKey, Vec<TCPRoute>)>,
        policies: Vec<TargetedPolicy>,
        backends: Vec<BackendWithPolicies>,
        route_groups: Vec<(RouteGroupKey, Vec<Route>)>,
        prev: PreviousState,
    ) -> (r: PreviousState)
        requires
            old(self).wf(),
            prev.wf(),
            forall|i: int| 0 <= i < binds@.len() ==> (#[trigger] binds@[i]).wf(),
        ensures
            final(self).wf(),
            r.wf(),
            final(self)@ == old(self)@.with_local(
                views(binds@),
                listener_routes@,
                listener_tcp_routes@,
                policies@,
                backends@,
                route_groups@,
            ).without_all(
                stale_keys(
                    prev@,
                    local_keys(
                        views(binds@),
                        listener_routes@,
                        listener_tcp_routes@,
                        policies@,
                        backends@,
                        route_groups@,
                    ),
                ),
            ),
            r@ == all_distinct(
                local_keys(
                    views(binds@),
                    listener_routes@,
                    listener_tcp_routes@,
                    policies@,
                    backends@,
                    route_groups@,
                ),
            ),
    {
        let ghost s0 = self@;
        let ghost first = prev@;
        let ghost all_binds = binds@;
        let ghost all_routes = listener_routes@;
        let ghost all_tcp = listener_tcp_routes@;
        let ghost all_policies = policies@;
        let ghost all_backends = backends@;
        let ghost all_groups = route_groups@;
        let mut old_binds = prev.binds;
        let mut old_routes = prev.routes;
        let mut old_tcp_routes = prev.tcp_routes;
        let mut old_pols = prev.policies;
        let mut old_backends = prev.backends;
        let mut old_route_groups = prev.route_groups;
        let mut next_binds = StringSet::new();
        let mut next_routes = StringSet::new();
        let mut next_tcp_routes = StringSet::new();
        let mut next_policies = StringSet::new();
        let mut next_backends = StringSet::new();
        let mut next_route_groups = StringSet::new();
        proof {
            assert(bind_texts(views(all_binds.take(0))) =~= Seq::<Text>::empty());
            assert(backend_texts(all_backends.take(0)) =~= Seq::<Text>::empty());
            assert(policy_texts(all_policies.take(0)) =~= Seq::<Text>::empty());
            assert(group_texts(all_groups.take(0)) =~= Seq::<Text>::empty());
        }
        for b in it: binds.into_iter()
            invariant
                it.seq() == all_binds,
                forall|i: int| 0 <= i < all_binds.len() ==> (#[trigger] all_binds[i]).wf(),
                self.wf(),
                old_binds.wf(),
                next_binds.wf(),
                self@ == s0.insert_binds(views(all_binds.take(it.index() as int))),
                old_binds.items() == minus(
                    first.binds,
                    bind_texts(views(all_binds.take(it.index() as int))),
                ),
                next_binds.items() == distinct(
                    bind_texts(views(all_binds.take(it.index() as int))),
                ),
        {
            let ghost n = it.index() as int;
            proof {
                let seen = views(all_binds.take(n + 1));
                assert(seen.drop_last() =~= views(all_binds.take(n)));
                assert(seen.last() == b@);
                assert(bind_texts(seen).drop_last() =~= bind_texts(views(all_binds.take(n))));
                assert(all_binds[n].wf());
            }
            note(&mut old_binds, &mut next_binds, &b.key);
            self.insert_bind(b);
        }
        assert(all_binds.take(all_binds.len() as int) =~= all_binds);
        let ghost s1 = self@;
        for b in it: backends.into_iter()
            invariant
                it.seq() == all_backends,
                self.wf(),
                old_backends.wf(),
                next_backends.wf(),
                self@ == s1.insert_backends(all_backends.take(it.index() as int)),
                old_backends.items() == minus(
                    first.backends,
                    backend_texts(all_backends.take(it.index() as int)),
                ),
                next_backends.items() == distinct(
                    backend_texts(all_backends.take(it.index() as int)),
                ),
        {
            let ghost n = it.index() as int;
            proof {
                let seen = all_backends.take(n + 1);
                assert(seen.drop_last() =~= all_backends.take(n));
                assert(backend_texts(seen).drop_last() =~= backend_texts(all_backends.take(n)));
            }
            let name = b.backend.name();
            note(&mut old_backends, &mut next_backends, &name);
            self.insert_backend(name, b);
        }
        assert(all_backends.take(all_backends.len() as int) =~= all_backends);
        let ghost s2 = self@;
        for entry in it: listener_routes.into_iter()
            invariant
                it.seq() == all_routes,
                self.wf(),
                old_routes.wf(),
                next_routes.wf(),
                self@ == s2.insert_listener_routes(all_routes.take(it.index() as int)),
                old_routes.items() == minus(
                    first.routes,
                    all_route_texts(all_routes.take(it.index() as int)),
                ),
                next_routes.items() == distinct(
                    all_route_texts(all_routes.take(it.index() as int)),
                ),
        {
            let ghost n = it.index() as int;
            let ghost seen = all_route_texts(all_routes.take(n));
            assert(all_routes.take(n + 1).drop_last() =~= all_routes.take(n));
            let (listener_key, routes) = entry;
            self.sync_routes(
                &listener_key,
                routes,
                &mut old_routes,
                &mut next_routes,
                Ghost(seen),
                Ghost(first.routes),
            );
        }
        assert(all_routes.take(all_routes.len() as int) =~= all_routes);
        let ghost s3 = self@;
        for entry in it: listener_tcp_routes.into_iter()
            invariant
                it.seq() == all_tcp,
                self.wf(),
                old_tcp_routes.wf(),
                next_tcp_routes.wf(),
                self@ == s3.insert_listener_tcp_routes(all_tcp.take(it.index() as int)),
                old_tcp_routes.items() == minus(
                    first.tcp_routes,
                    all_route_texts(all_tcp.take(it.index() as int)),
                ),
                next_tcp_routes.items() == distinct(
                    all_route_texts(all_tcp.take(it.index() as int)),
                ),
        {
            let ghost n = it.index() as int;
            let ghost seen = all_route_texts(all_tcp.take(n));
            assert(all_tcp.take(n + 1).drop_last() =~= all_tcp.take(n));
            let (listener_key, routes) = entry;
            self.sync_tcp_routes(
                &listener_key,
                routes,
                &mut old_tcp_routes,
                &mut next_tcp_routes,
                Ghost(seen),
                Ghost(first.tcp_routes),
            );
        }
        assert(all_tcp.take(all_tcp.len() as int) =~= all_tcp);
        let ghost s4 = self@;
        for p in it: policies.into_iter()
            invariant
                it.seq() == all_policies,
                self.wf(),
                old_pols.wf(),
                next_policies.wf(),
                self@ == s4.insert_policies(all_policies.take(it.index() as int)),
                old_pols.items() == minus(
                    first.policies,
                    policy_texts(all_policies.take(it.index() as int)),
                ),
                next_policies.items() == distinct(
                    policy_texts(all_policies.take(it.index() as int)),
                ),
        {
            let ghost n = it.index() as int;
            proof {
                let seen = all_policies.take(n + 1);
                assert(seen.drop_last() =~= all_policies.take(n));
                assert(policy_texts(seen).drop_last() =~= policy_texts(all_policies.take(n)));
            }
            note(&mut old_pols, &mut next_policies, &p.key);
            self.insert_policy(p);
        }
        assert(all_policies.take(all_policies.len() as int) =~= all_policies);
        let ghost s5 = self@;
        for entry in it: route_groups.into_iter()
            invariant
                it.seq() == all_groups,
                self.wf(),
                old_route_groups.wf(),
                next_route_groups.wf(),
                self@ == s5.insert_route_groups(all_groups.take(it.index() as int)),
                old_route_groups.items() == minus(
                    first.route_groups,
                    group_texts(all_groups.take(it.index() as int)),
                ),
                next_route_groups.items() == distinct(
                    group_texts(all_groups.take(it.index() as int)),
                ),
        {
            let ghost n = it.index() as int;
            proof {
                let seen = all_groups.take(n + 1);
                assert(seen.drop_last() =~= all_groups.take(n));
                assert(group_texts(seen).drop_last() =~= group_texts(all_groups.take(n)));
            }
            let (rg_key, routes) = entry;
            note(&mut old_route_groups, &mut next_route_groups, &rg_key);
            self.sync_group(&rg_key, routes);
        }
        assert(all_groups.take(all_groups.len() as int) =~= all_groups);
        self.remove_stale(
            &old_binds,
            &old_routes,
            &old_tcp_routes,
            &old_pols,
            &old_backends,
            &old_route_groups,
        );
        let next = PreviousState {
            binds: next_binds,
            routes: next_routes,
            tcp_routes: next_tcp_routes,
            policies: next_policies,
            backends: next_backends,
            route_groups: next_route_groups,
        };
        proof {
            let keys = local_keys(
                views(all_binds),
                all_routes,
                all_tcp,
                all_policies,
                all_backends,
                all_groups,
            );
            assert(next@ =~= all_distinct(keys));
            assert(stale_keys(first, keys) =~= (PreviousStateView {
                binds: old_binds.items(),
                routes: old_routes.items(),
                tcp_routes: old_tcp_routes.items(),
                policies: old_pols.items(),
                backends: old_backends.items(),
                route_groups: old_route_groups.items(),
            }));
        }
        next
    }

    fn remove_stale(
        &mut self,
        binds: &StringSet,
        routes: &StringSet,
        tcp_routes: &StringSet,
        policies: &StringSet,
        backends: &StringSet,
        route_groups: &StringSet,
    )
        requires
            old(self).wf(),
        ensures
            final(self).wf(),
            final(self)@ == old(self)@.without_all(
                PreviousStateView {
                    binds: binds.items(),
                    routes: routes.items(),
                    tcp_routes: tcp_routes.items(),
                    policies: policies.items(),
                    backends: backends.items(),
                    route_groups: route_groups.items(),
                },
            ),
    {
        let ghost t0 = self@;
        let mut i: usize = 0;
        while i < binds.len()
            invariant
                self.wf(),
                i <= binds.items().len(),
                self@ == t0.remove_binds(binds.items().take(i as int)),
            decreases binds.items().len() - i,
        {
            assert(binds.items().take(i as int + 1).drop_last() =~= binds.items().take(i as int));
            self.remove_bind(binds.item_at(i).clone());
            i = i + 1;
        }
        assert(binds.items().take(i as int) =~= binds.items());
        let ghost t1 = self@;
        let mut i: usize = 0;
        while i < routes.len()
            invariant
                self.wf(),
                i <= routes.items().len(),
                self@ == t1.remove_routes(routes.items().take(i as int)),
            decreases routes.items().len() - i,
        {
            assert(routes.items().take(i as int + 1).drop_last() =~= routes.items().take(i as int));
            self.remove_route(routes.item_at(i).clone());
            i = i + 1;
        }
        assert(routes.items().take(i as int) =~= routes.items());
        let ghost t2 = self@;
        let mut i: usize = 0;
        while i < tcp_routes.len()
            invariant
                self.wf(),
                i <= tcp_routes.items().len(),
                self@ == t2.remove_tcp_routes(tcp_routes.items().take(i as int)),
            decreases tcp_routes.items().len() - i,
        {
            assert(tcp_routes.items().take(i as int + 1).drop_last() =~= tcp_routes.items().take(
                i as int,
            ));
            self.remove_tcp_route(tcp_routes.item_at(i).clone());
            i = i + 1;
        }
        assert(tcp_routes.items().take(i as int) =~= tcp_routes.items());
        let ghost t3 = self@;
        let mut i: usize = 0;
        while i < policies.len()
            invariant
                self.wf(),
                i <= policies.items().len(),
                self@ == t3.remove_policies(policies.items().take(i as int)),
            decreases policies.items().len() - i,
        {
            assert(policies.items().take(i as int + 1).drop_last() =~= policies.items().take(
                i as int,
            ));
            self.remove_policy(policies.item_at(i).clone());
            i = i + 1;
        }
        assert(policies.items().take(i as int) =~= policies.items());
        let ghost t4 = self@;
        let mut i: usize = 0;
        while i < backends.len()
            invariant
                self.wf(),
                i <= backends.items().len(),
                self@ == t4.remove_backends(backends.items().take(i as int)),
            decreases backends.items().len() - i,
        {
            assert(backends.items().take(i as int + 1).drop_last() =~= backends.items().take(
                i as int,
            ));
            self.remove_backend(backends.item_at(i).clone());
            i = i + 1;
        }
        assert(backends.items().take(i as int) =~= backends.items());
        let ghost t5 = self@;
        let mut i: usize = 0;
        while i < route_groups.len()
            invariant
                self.wf(),
                i <= route_groups.items().len(),
                self@ == t5.remove_route_groups(route_groups.items().take(i as int)),
            decreases route_groups.items().len() - i,
        {
            assert(route_groups.items().take(i as int + 1).drop_last()
                =~= route_groups.items().take(i as int));
            self.remove_route_group(route_groups.item_at(i).clone());
            i = i + 1;
        }
        assert(route_groups.items().take(i as int) =~= route_groups.items());
    }
}

// ---------------------------------------------------------------------------------------------
// The updater
// ---------------------------------------------------------------------------------------------

/// The store with those that change it as a whole.
#[derive(Debug)]
pub struct StoreUpdater {
    state: Store,
}

impl StoreUpdater {
    /// The store.
    pub closed spec fn store(&self) -> Store {
        self.state
    }

    /// An updater of the store.
    pub fn new(state: Store) -> (r: StoreUpdater)
        ensures
            r.store() == state,
    {
        StoreUpdater { state }
    }

    /// The store, to read.
    pub fn read(&self) -> (r: &Store)
        ensures
            *r == self.store(),
    {
        &self.state
    }

    /// The store, to change.
    pub fn write(&mut self) -> (r: &mut Store)
        ensures
            *r == old(self).store(),
            final(self).store() == *final(r),
    {
        &mut self.state
    }

    /// Everything that the store holds.
    pub fn dump(&self) -> (r: Dump)
        requires
            self.store().wf(),
        ensures
            dumped(r, self.store()@),
    {
        self.state.dump()
    }

    /// Puts everything of a local configuration in place and takes out what the last
    /// synchronization put in place and this one does not. Returns the keys that it put in place.
    pub fn sync_local(
        &mut self,
        binds: Vec<Bind>,
        listener_routes: Vec<(ListenerKey, Vec<Route>)>,
        listener_tcp_routes: Vec<(ListenerKey, Vec<TCPRoute>)>,
        policies: Vec<TargetedPolicy>,
        backends: Vec<BackendWithPolicies>,
        route_groups: Vec<(RouteGroupKey, Vec<Route>)>,
        prev: PreviousState,
    ) -> (r: PreviousState)
        requires
            old(self).store().wf(),
            prev.wf(),
            forall|i: int| 0 <= i < binds@.len() ==> (#[trigger] binds@[i]).wf(),
        ensures
            final(self).store().wf(),
            r.wf(),
            final(self).store()@ == old(self).store()@.with_local(
                views(binds@),
                listener_routes@,
                listener_tcp_routes@,
                policies@,
                backends@,
                route_groups@,
            ).without_all(
                stale_keys(
                    prev@,
                    local_keys(
                        views(binds@),
                        listener_routes@,
                        listener_tcp_routes@,
                        policies@,
                        backends@,
                        route_groups@,
                    ),
                ),
            ),
            r@ == all_distinct(
                local_keys(
                    views(binds@),
                    listener_routes@,
                    listener_tcp_routes@,
                    policies@,
                    backends@,
                    route_groups@,
                ),
            ),
    {
        self.state.sync_local(
            binds,
            listener_routes,
            listener_tcp_routes,
            policies,
            backends,
            route_groups,
            prev,
        )
    }

    /// Applies the changes that a control plane pushes, one after the other.
    pub fn handle(&mut self, updates: Vec<XdsUpdate>) -> (r: Result<(), Vec<RejectedConfig>>)
        requires
            old(self).store().wf(),
        ensures
            final(self).store().wf(),
            final(self).store()@ == after_updates(old(self).store()@, updates@),
            match r {
                Ok(_) => rejections(updates@).len() == 0,
                Err(rejects) => rejections(updates@).len() > 0 && views(rejects@) == rejections(
                    updates@,
                ),
            },
    {
        self.state.handle(updates)
    }
}

} // verus!
