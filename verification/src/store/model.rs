//! The model of the store: what it holds, what each operation does to it, and which rules are in
//! force where.

use std::sync::Arc;

use vstd::prelude::*;

use crate::keyed::{added, lemma_added, lemma_without, without};
use crate::store::policies::RoutePath;
use crate::target_table::{target_id, TargetId, TargetKey};
use crate::text::{same_text, texts, Text};
use crate::types::agent::{
    gateway_id, keyed_by_key, listener_set_id, route_id, routes_keyed, service_policy_id, Backend,
    BackendKey, BackendWithPolicies, Bind, BindKey, BindView, Keyed, ListenerKey, ListenerNameView,
    ListenerView, NamespacedHostname, NamespacedHostnameView, PolicyKey, PolicyTargetView, Route,
    RouteGroupKey, RouteKey, RouteName, RouteNameView, SocketAddr, TCPRoute, TargetedPolicy,
};
use crate::types::frontend::FrontendPolicy;
use crate::types::traffic::{BackendTrafficPolicy, PolicyPhase, PolicyType, TrafficPolicy};

verus! {

// ---------------------------------------------------------------------------------------------
// Keys of routes
// ---------------------------------------------------------------------------------------------

/// What routes belong to.
#[derive(Debug)]
pub enum RouteTarget {
    Listener(ListenerKey),
    Service(NamespacedHostname),
    RouteGroup(RouteGroupKey),
}

/// What a [`RouteTarget`] holds.
pub enum RouteTargetView {
    Listener(Text),
    Service(NamespacedHostnameView),
    RouteGroup(Text),
}

impl View for RouteTarget {
    type V = RouteTargetView;

    open spec fn view(&self) -> RouteTargetView {
        match self {
            RouteTarget::Listener(k) => RouteTargetView::Listener(k@),
            RouteTarget::Service(s) => RouteTargetView::Service(s@),
            RouteTarget::RouteGroup(k) => RouteTargetView::RouteGroup(k@),
        }
    }
}

impl RouteTargetView {
    /// The identity under which the routes are found.
    pub open spec fn id(self) -> TargetId {
        match self {
            RouteTargetView::Listener(k) => (0u8, k, Seq::empty(), None, None, None),
            RouteTargetView::Service(s) => (1u8, s.namespace, s.hostname, None, None, None),
            RouteTargetView::RouteGroup(k) => (2u8, k, Seq::empty(), None, None, None),
        }
    }
}

/// Two owners of routes are the same if they have the same identity: the routes of a listener, of a
/// service and of a group never mix.
pub proof fn route_target_identity_is_injective(a: RouteTargetView, b: RouteTargetView)
    ensures
        a.id() == b.id() ==> a == b,
{
}

/// What routes belong to, by reference.
#[derive(Debug, Clone, Copy, PartialEq, Eq)]
pub enum RouteTargetRef<'a> {
    Listener(&'a str),
    Service { namespace: &'a str, hostname: &'a str },
    RouteGroup(&'a str),
}

impl<'a> RouteTargetRef<'a> {
    /// What the reference stands for.
    pub open spec fn target(&self) -> RouteTargetView {
        match self {
            RouteTargetRef::Listener(k) => RouteTargetView::Listener(k@),
            RouteTargetRef::Service { namespace, hostname } => RouteTargetView::Service(
                NamespacedHostnameView { namespace: namespace@, hostname: hostname@ },
            ),
            RouteTargetRef::RouteGroup(k) => RouteTargetView::RouteGroup(k@),
        }
    }

    /// The reference to a target.
    pub fn from_target(value: &'a RouteTarget) -> (r: Self)
        ensures
            r.target() == value@,
    {
        match value {
            RouteTarget::Listener(listener) => RouteTargetRef::Listener(listener.as_str()),
            RouteTarget::Service(service) => RouteTargetRef::Service {
                namespace: service.namespace.as_str(),
                hostname: service.hostname.as_str(),
            },
            RouteTarget::RouteGroup(group) => RouteTargetRef::RouteGroup(group.as_str()),
        }
    }

    /// Whether the reference stands for the target.
    pub fn equivalent(&self, key: &RouteTarget) -> (r: bool)
        ensures
            r == (self.target() == key@),
    {
        match (self, &RouteTargetRef::from_target(key)) {
            (RouteTargetRef::Listener(a), RouteTargetRef::Listener(b)) => same_text(*a, *b),
            (
                RouteTargetRef::Service { namespace: n1, hostname: h1 },
                RouteTargetRef::Service { namespace: n2, hostname: h2 },
            ) => same_text(*n1, *n2) && same_text(*h1, *h2),
            (RouteTargetRef::RouteGroup(a), RouteTargetRef::RouteGroup(b)) => same_text(*a, *b),
            _ => false,
        }
    }

    /// The key under which the routes are found.
    pub fn key(&self) -> (r: TargetKey)
        ensures
            target_id(r) == self.target().id(),
    {
        match self {
            RouteTargetRef::Listener(k) => (
                0u8,
                (*k).to_owned(),
                String::new(),
                None,
                None,
                None,
            ),
            RouteTargetRef::Service { namespace, hostname } => (
                1u8,
                (*namespace).to_owned(),
                (*hostname).to_owned(),
                None,
                None,
                None,
            ),
            RouteTargetRef::RouteGroup(k) => (
                2u8,
                (*k).to_owned(),
                String::new(),
                None,
                None,
                None,
            ),
        }
    }
}

/// The identity under which the routes of a service are found.
pub open spec fn service_routes_id(service: NamespacedHostnameView) -> TargetId {
    RouteTargetView::Service(service).id()
}

// ---------------------------------------------------------------------------------------------
// Events
// ---------------------------------------------------------------------------------------------

/// The sockets that a bind is served from.
#[derive(Debug)]
pub enum BindListeners {
    /// One socket.
    Single(SocketAddr),
    /// One socket for each of the cores, all of them at the address.
    PerCore(SocketAddr, Vec<usize>),
}

/// What a [`BindListeners`] holds.
#[verifier::ext_equal]
pub enum BindListenersView {
    Single(SocketAddr),
    PerCore(SocketAddr, Seq<usize>),
}

impl View for BindListeners {
    type V = BindListenersView;

    open spec fn view(&self) -> BindListenersView {
        match self {
            BindListeners::Single(a) => BindListenersView::Single(*a),
            BindListeners::PerCore(a, cores) => BindListenersView::PerCore(*a, cores@),
        }
    }
}

/// A change of the binds that have to be served.
#[derive(Debug)]
pub enum BindEvent {
    Add(Arc<Bind>, BindListeners),
    Remove(BindKey),
}

/// What a [`BindEvent`] holds.
#[verifier::ext_equal]
pub enum BindEventView {
    Add(BindView, BindListenersView),
    Remove(Text),
}

impl View for BindEvent {
    type V = BindEventView;

    open spec fn view(&self) -> BindEventView {
        match self {
            BindEvent::Add(b, l) => BindEventView::Add((**b)@, l@),
            BindEvent::Remove(k) => BindEventView::Remove(k@),
        }
    }
}

/// What a resource of a control plane was stored as.
#[derive(Debug)]
pub enum ResourceKind {
    Policy(PolicyKey),
    Bind(BindKey),
    Route(RouteKey),
    TcpRoute(RouteKey),
    Listener(ListenerKey),
    Backend(BackendKey),
}

/// What a [`ResourceKind`] holds.
pub enum ResourceKindView {
    Policy(Text),
    Bind(Text),
    Route(Text),
    TcpRoute(Text),
    Listener(Text),
    Backend(Text),
}

impl View for ResourceKind {
    type V = ResourceKindView;

    open spec fn view(&self) -> ResourceKindView {
        match self {
            ResourceKind::Policy(k) => ResourceKindView::Policy(k@),
            ResourceKind::Bind(k) => ResourceKindView::Bind(k@),
            ResourceKind::Route(k) => ResourceKindView::Route(k@),
            ResourceKind::TcpRoute(k) => ResourceKindView::TcpRoute(k@),
            ResourceKind::Listener(k) => ResourceKindView::Listener(k@),
            ResourceKind::Backend(k) => ResourceKindView::Backend(k@),
        }
    }
}

// ---------------------------------------------------------------------------------------------
// The model of the store
// ---------------------------------------------------------------------------------------------

/// What the store holds.
#[verifier::ext_equal]
pub struct StoreView {
    pub ipv6_enabled: bool,
    /// The cores that each bind has a socket of its own for, if it has.
    pub cores: Option<Seq<usize>>,
    pub binds: Map<Text, BindView>,
    /// The keys of the binds, in the order in which they came.
    pub bind_order: Seq<Text>,
    pub resources: Map<Text, ResourceKindView>,
    pub policies: Map<Text, Arc<TargetedPolicy>>,
    /// The keys of the policies, in the order in which they came.
    pub policy_order: Seq<Text>,
    /// The keys of the policies of each target, in the order in which they were attached.
    pub by_target: Map<TargetId, Seq<Text>>,
    pub backends: Map<Text, Arc<BackendWithPolicies>>,
    /// Listeners that came before their bind.
    pub pending: Map<Text, Map<Text, ListenerView>>,
    pub http_routes: Map<TargetId, Map<Text, Arc<Route>>>,
    pub tcp_routes: Map<TargetId, Map<Text, Arc<TCPRoute>>>,
    /// Counts the changes of listeners that are being served.
    pub epoch: u64,
    /// The events that no subscriber has taken yet.
    pub events: Seq<BindEventView>,
    pub subscribed: bool,
    /// Whether a backend was stored that counts tokens.
    pub tokenizes: bool,
}

/// Whether a listener of the old set is missing in the new one, or differs there.
pub open spec fn listeners_changed(
    old_set: Map<Text, ListenerView>,
    new_set: Map<Text, ListenerView>,
) -> bool {
    exists|k: Text| #[trigger]
        old_set.contains_key(k) && !(new_set.contains_key(k) && new_set[k] == old_set[k])
}

/// The key of the first bind, in order, that has the listener.
pub open spec fn bind_of_listener(
    order: Seq<Text>,
    binds: Map<Text, BindView>,
    listener: Text,
) -> Option<Text>
    decreases order.len(),
{
    if order.len() == 0 {
        None
    } else {
        match bind_of_listener(order.drop_last(), binds, listener) {
            Some(k) => Some(k),
            None => if binds[order.last()].listeners.contains_key(listener) {
                Some(order.last())
            } else {
                None
            },
        }
    }
}

/// The keys that a target has, none if it is unknown.
pub open spec fn keys_at(by_target: Map<TargetId, Seq<Text>>, id: TargetId) -> Seq<Text> {
    if by_target.contains_key(id) {
        by_target[id]
    } else {
        Seq::empty()
    }
}

/// The routes that a target has, none if it is unknown.
pub open spec fn routes_at<R>(
    routes: Map<TargetId, Map<Text, Arc<R>>>,
    id: TargetId,
) -> Map<Text, Arc<R>> {
    if routes.contains_key(id) {
        routes[id]
    } else {
        Map::empty()
    }
}

/// The routes with one of them put under a target.
pub open spec fn with_route<R: Keyed>(
    routes: Map<TargetId, Map<Text, Arc<R>>>,
    id: TargetId,
    route: R,
) -> Map<TargetId, Map<Text, Arc<R>>> {
    routes.insert(id, routes_at(routes, id).insert(route.key_text(), Arc::new(route)))
}

/// The routes without the one that has the key, under whichever target it is. A target that is
/// left without routes is forgotten.
pub open spec fn without_route<R>(
    routes: Map<TargetId, Map<Text, Arc<R>>>,
    key: Text,
) -> Map<TargetId, Map<Text, Arc<R>>> {
    Map::new(
        |id: TargetId|
            routes.contains_key(id) && routes[id].remove(key) != Map::<Text, Arc<R>>::empty(),
        |id: TargetId| routes[id].remove(key),
    )
}

/// Every policy is listed under its target and nowhere else, and only policies are listed.
pub open spec fn policies_indexed(
    policies: Map<Text, Arc<TargetedPolicy>>,
    by_target: Map<TargetId, Seq<Text>>,
) -> bool {
    &&& forall|k: Text| #[trigger]
        policies.contains_key(k) ==> policies[k].key@ == k && keys_at(
            by_target,
            policies[k].target@.id(),
        ).contains(k)
    &&& forall|id: TargetId, k: Text| #[trigger]
        keys_at(by_target, id).contains(k) ==> policies.contains_key(k) && policies[k].target@.id()
            == id
    &&& forall|id: TargetId| #[trigger]
        by_target.contains_key(id) ==> by_target[id].no_duplicates()
}

/// Whether an identity is that of an owner of routes.
pub open spec fn owns_routes(id: TargetId) -> bool {
    exists|t: RouteTargetView| #[trigger] t.id() == id
}

/// Every owner of routes has some, each under its own key.
pub open spec fn routes_ok<R: Keyed>(routes: Map<TargetId, Map<Text, Arc<R>>>) -> bool {
    forall|id: TargetId| #[trigger]
        routes.contains_key(id) ==> owns_routes(id) && routes[id] != Map::<Text, Arc<R>>::empty()
            && routes_keyed(routes[id])
}

impl StoreView {
    /// What every operation keeps: binds and policies stand under their own keys, policies are
    /// indexed by their targets, no listener waits for a bind that is there, no target is held
    /// without routes, and each order lists the keys once.
    pub open spec fn inv(self) -> bool {
        &&& forall|k: Text| #[trigger]
            self.binds.contains_key(k) ==> self.binds[k].key == k && keyed_by_key(
                self.binds[k].listeners,
            )
        &&& self.bind_order.no_duplicates()
        &&& forall|k: Text| #[trigger] self.bind_order.contains(k) <==> self.binds.contains_key(k)
        &&& self.policy_order.no_duplicates()
        &&& forall|k: Text| #[trigger]
            self.policy_order.contains(k) <==> self.policies.contains_key(k)
        &&& policies_indexed(self.policies, self.by_target)
        &&& forall|k: Text| #[trigger]
            self.pending.contains_key(k) ==> !self.binds.contains_key(k) && keyed_by_key(
                self.pending[k],
            )
        &&& routes_ok(self.http_routes)
        &&& routes_ok(self.tcp_routes)
    }

    /// The store that holds nothing.
    pub open spec fn empty(ipv6_enabled: bool, cores: Option<Seq<usize>>) -> StoreView {
        StoreView {
            ipv6_enabled,
            cores,
            binds: Map::empty(),
            bind_order: Seq::empty(),
            resources: Map::empty(),
            policies: Map::empty(),
            policy_order: Seq::empty(),
            by_target: Map::empty(),
            backends: Map::empty(),
            pending: Map::empty(),
            http_routes: Map::empty(),
            tcp_routes: Map::empty(),
            epoch: 0,
            events: Seq::empty(),
            subscribed: false,
            tokenizes: false,
        }
    }

    /// The listeners that wait for a bind.
    pub open spec fn waiting(self, bind: Text) -> Map<Text, ListenerView> {
        if self.pending.contains_key(bind) {
            self.pending[bind]
        } else {
            Map::empty()
        }
    }

    /// The sockets that a bind at the address is served from.
    pub open spec fn sockets(self, address: SocketAddr) -> BindListenersView {
        match self.cores {
            Some(cores) => BindListenersView::PerCore(address, cores),
            None => BindListenersView::Single(address),
        }
    }

    /// The epoch after a change of listeners.
    pub open spec fn next_epoch(self) -> u64 {
        if self.epoch == u64::MAX {
            u64::MAX
        } else {
            (self.epoch + 1) as u64
        }
    }

    /// The bind with the listeners that waited for it.
    pub open spec fn completed(self, bind: BindView) -> BindView {
        BindView {
            listeners: bind.listeners.union_prefer_right(self.waiting(bind.key)),
            ..bind
        }
    }

    /// Puts a bind under a key. Listeners that waited for the bind join it. A bind that is new has
    /// to be served; of one that replaces another, watchers are told if a listener of the old one
    /// changed or went away.
    pub open spec fn upsert_bind(self, key: Text, bind: BindView) -> StoreView {
        let full = self.completed(bind);
        let known = self.binds.contains_key(key);
        StoreView {
            binds: self.binds.insert(key, full),
            bind_order: added(self.bind_order, key),
            pending: self.pending.remove(bind.key),
            epoch: if known && listeners_changed(self.binds[key].listeners, full.listeners) {
                self.next_epoch()
            } else {
                self.epoch
            },
            events: if known {
                self.events
            } else {
                self.events.push(BindEventView::Add(full, self.sockets(full.address)))
            },
            ..self
        }
    }

    /// Puts a bind under its own key.
    pub open spec fn insert_bind(self, bind: BindView) -> StoreView {
        self.upsert_bind(bind.key, bind)
    }

    /// Takes a bind out.
    pub open spec fn remove_bind(self, key: Text) -> StoreView {
        StoreView {
            binds: self.binds.remove(key),
            bind_order: without(self.bind_order, key),
            events: self.events.push(BindEventView::Remove(key)),
            ..self
        }
    }

    /// Puts a listener on its bind, or lets it wait for the bind.
    pub open spec fn insert_listener(self, listener: ListenerView, bind: Text) -> StoreView {
        if self.binds.contains_key(bind) {
            let b = self.binds[bind];
            self.upsert_bind(
                bind,
                BindView { listeners: b.listeners.insert(listener.key, listener), ..b },
            )
        } else {
            StoreView {
                pending: self.pending.insert(
                    bind,
                    self.waiting(bind).insert(listener.key, listener),
                ),
                ..self
            }
        }
    }

    /// Takes a listener off the first bind that has it.
    pub open spec fn remove_listener(self, listener: Text) -> StoreView {
        match bind_of_listener(self.bind_order, self.binds, listener) {
            Some(key) => {
                let b = self.binds[key];
                self.upsert_bind(key, BindView { listeners: b.listeners.remove(listener), ..b })
            },
            None => self,
        }
    }

    /// The targets without a policy.
    pub open spec fn detached(self, key: Text) -> Map<TargetId, Seq<Text>> {
        if self.policies.contains_key(key) {
            let id = self.policies[key].target@.id();
            if self.by_target.contains_key(id) {
                self.by_target.insert(id, without(self.by_target[id], key))
            } else {
                self.by_target
            }
        } else {
            self.by_target
        }
    }

    /// Attaches a policy to its target, in place of the one with its key.
    pub open spec fn insert_policy(self, pol: TargetedPolicy) -> StoreView {
        let rest = self.detached(pol.key@);
        let id = pol.target@.id();
        StoreView {
            policies: self.policies.insert(pol.key@, Arc::new(pol)),
            policy_order: added(self.policy_order, pol.key@),
            by_target: rest.insert(id, added(keys_at(rest, id), pol.key@)),
            ..self
        }
    }

    /// Detaches a policy.
    pub open spec fn remove_policy(self, key: Text) -> StoreView {
        StoreView {
            policies: self.policies.remove(key),
            policy_order: without(self.policy_order, key),
            by_target: self.detached(key),
            ..self
        }
    }

    /// Puts a backend under a key.
    pub open spec fn insert_backend(self, key: Text, backend: BackendWithPolicies) -> StoreView {
        StoreView {
            backends: self.backends.insert(key, Arc::new(backend)),
            tokenizes: self.tokenizes || counts_tokens(backend),
            ..self
        }
    }

    /// Takes a backend out.
    pub open spec fn remove_backend(self, key: Text) -> StoreView {
        StoreView { backends: self.backends.remove(key), ..self }
    }

    /// Puts an HTTP route under a target.
    pub open spec fn insert_http_route(self, target: RouteTargetView, route: Route) -> StoreView {
        StoreView { http_routes: with_route(self.http_routes, target.id(), route), ..self }
    }

    /// Puts a TCP route under a target.
    pub open spec fn insert_tcp_route(self, target: RouteTargetView, route: TCPRoute) -> StoreView {
        StoreView { tcp_routes: with_route(self.tcp_routes, target.id(), route), ..self }
    }

    /// Takes an HTTP route out.
    pub open spec fn remove_route(self, key: Text) -> StoreView {
        StoreView { http_routes: without_route(self.http_routes, key), ..self }
    }

    /// Takes a TCP route out.
    pub open spec fn remove_tcp_route(self, key: Text) -> StoreView {
        StoreView { tcp_routes: without_route(self.tcp_routes, key), ..self }
    }

    /// Takes a group of routes out.
    pub open spec fn remove_route_group(self, key: Text) -> StoreView {
        StoreView {
            http_routes: self.http_routes.remove(RouteTargetView::RouteGroup(key).id()),
            ..self
        }
    }

    /// Remembers what a resource was stored as.
    pub open spec fn note_resource(self, name: Text, kind: ResourceKindView) -> StoreView {
        StoreView { resources: self.resources.insert(name, kind), ..self }
    }

    /// Takes out what a resource was stored as.
    pub open spec fn remove_resource(self, name: Text) -> StoreView {
        if !self.resources.contains_key(name) {
            self
        } else {
            let rest = StoreView { resources: self.resources.remove(name), ..self };
            match self.resources[name] {
                ResourceKindView::Policy(k) => rest.remove_policy(k),
                ResourceKindView::Bind(k) => rest.remove_bind(k),
                ResourceKindView::Route(k) => rest.remove_route(k),
                ResourceKindView::TcpRoute(k) => rest.remove_tcp_route(k),
                ResourceKindView::Listener(k) => rest.remove_listener(k),
                ResourceKindView::Backend(k) => rest.remove_backend(k),
            }
        }
    }
}

/// Whether a backend asks models through a provider that counts tokens.
pub open spec fn counts_tokens(b: BackendWithPolicies) -> bool {
    match b.backend {
        Backend::AI(_, t) => t.tokenizes(),
        _ => false,
    }
}

// ---------------------------------------------------------------------------------------------
// Rules in force
// ---------------------------------------------------------------------------------------------

/// The policies behind the keys, as far as they are of the wanted kind.
pub open spec fn gather<X>(
    policies: Map<Text, Arc<TargetedPolicy>>,
    keys: Seq<Text>,
    pick: spec_fn(PolicyType) -> Option<X>,
) -> Seq<X>
    decreases keys.len(),
{
    if keys.len() == 0 {
        Seq::empty()
    } else {
        let rest = gather(policies, keys.drop_last(), pick);
        if policies.contains_key(keys.last()) {
            match pick(policies[keys.last()].policy) {
                Some(x) => rest.push(x),
                None => rest,
            }
        } else {
            rest
        }
    }
}

/// Policies are gathered key by key.
pub proof fn lemma_gather_concat<X>(
    policies: Map<Text, Arc<TargetedPolicy>>,
    a: Seq<Text>,
    b: Seq<Text>,
    pick: spec_fn(PolicyType) -> Option<X>,
)
    ensures
        gather(policies, a + b, pick) == gather(policies, a, pick) + gather(policies, b, pick),
    decreases b.len(),
{
    if b.len() == 0 {
        assert(a + b =~= a);
        assert(gather(policies, a, pick) + gather(policies, b, pick) =~= gather(policies, a, pick));
    } else {
        assert((a + b).drop_last() =~= a + b.drop_last());
        lemma_gather_concat(policies, a, b.drop_last(), pick);
        assert(gather(policies, a + b, pick) =~= gather(policies, a, pick) + gather(
            policies,
            b,
            pick,
        ));
    }
}

/// Traffic policies that run on routes.
pub open spec fn on_routes() -> spec_fn(PolicyType) -> Option<TrafficPolicy> {
    |p: PolicyType| p.traffic(PolicyPhase::Route)
}

/// Traffic policies that run before a route is chosen.
pub open spec fn before_routing() -> spec_fn(PolicyType) -> Option<TrafficPolicy> {
    |p: PolicyType| p.traffic(PolicyPhase::Gateway)
}

/// Backend policies.
pub open spec fn on_backends() -> spec_fn(PolicyType) -> Option<BackendTrafficPolicy> {
    |p: PolicyType| p.backend()
}

/// Frontend policies.
pub open spec fn on_frontends() -> spec_fn(PolicyType) -> Option<FrontendPolicy> {
    |p: PolicyType| p.frontend()
}

/// The texts of a sequence without repetitions, each where it first occurs.
pub open spec fn distinct(s: Seq<Text>) -> Seq<Text>
    decreases s.len(),
{
    if s.len() == 0 {
        Seq::empty()
    } else {
        added(distinct(s.drop_last()), s.last())
    }
}

/// `itertools::Itertools::unique` on strings: each string where it first occurs, later occurrences
/// left out.
#[verifier::external_body]
pub(crate) fn unique_texts(keys: Vec<String>) -> (r: Vec<String>)
    ensures
        texts(r@) == distinct(texts(keys@)),
{
    itertools::Itertools::unique(keys.into_iter()).collect()
}

/// What a path traverses.
#[verifier::ext_equal]
pub struct RoutePathView {
    pub listener: ListenerNameView,
    pub service: Option<NamespacedHostnameView>,
    pub routes: Seq<RouteNameView>,
}

/// What route names hold.
pub open spec fn route_name_views(routes: Seq<&RouteName>) -> Seq<RouteNameView> {
    routes.map_values(|n: &RouteName| (*n)@)
}

impl<'a> View for RoutePath<'a> {
    type V = RoutePathView;

    open spec fn view(&self) -> RoutePathView {
        RoutePathView {
            listener: (*self.listener)@,
            service: match self.service {
                Some(s) => Some((*s)@),
                None => None,
            },
            routes: route_name_views(self.routes@),
        }
    }
}

impl StoreView {
    /// The keys of the policies of a target.
    pub open spec fn attached(self, id: TargetId) -> Seq<Text> {
        keys_at(self.by_target, id)
    }

    /// The keys of the policies of a service, if there is one.
    pub open spec fn attached_to_service(
        self,
        service: Option<NamespacedHostnameView>,
    ) -> Seq<Text> {
        match service {
            Some(s) => self.attached(service_policy_id(s)),
            None => Seq::empty(),
        }
    }

    /// The keys of the policies of a listener set, or of its section, if there is a set.
    pub open spec fn attached_to_listener_set(
        self,
        name: ListenerNameView,
        section: bool,
    ) -> Seq<Text> {
        match name.listener_set {
            Some(set) => self.attached(
                listener_set_id(
                    set,
                    if section {
                        Some(name.listener_name)
                    } else {
                        None
                    },
                ),
            ),
            None => Seq::empty(),
        }
    }

    /// The keys of the policies of a gateway.
    pub open spec fn attached_to_gateway(self, name: ListenerNameView) -> Seq<Text> {
        self.attached(gateway_id(name, None, None))
    }

    /// The keys of the policies of a listener of a gateway.
    pub open spec fn attached_to_listener(self, name: ListenerNameView) -> Seq<Text> {
        self.attached(gateway_id(name, Some(name.listener_name), None))
    }

    /// The rules of one route of a path: its own, then those of its rule, then those of the route.
    pub open spec fn route_level(
        self,
        route: RouteNameView,
        inline: Seq<TrafficPolicy>,
    ) -> Seq<TrafficPolicy> {
        inline + gather(self.policies, self.attached(route_id(route, true)), on_routes()) + gather(
            self.policies,
            self.attached(route_id(route, false)),
            on_routes(),
        )
    }

    /// The rules of the routes of a path from the last one up to the one at `i`.
    pub open spec fn route_levels(
        self,
        routes: Seq<RouteNameView>,
        inline: Seq<Seq<TrafficPolicy>>,
        i: int,
    ) -> Seq<TrafficPolicy>
        decreases routes.len() - i,
    {
        if i >= routes.len() {
            Seq::empty()
        } else {
            self.route_levels(routes, inline, i + 1) + self.route_level(
                routes[i],
                if i < inline.len() {
                    inline[i]
                } else {
                    Seq::empty()
                },
            )
        }
    }

    /// The rules of a request that took the path, in order of precedence: those of the routes, the
    /// last one first, then those of the service, of the listener and of the gateway.
    pub open spec fn route_rules(
        self,
        path: RoutePathView,
        inline: Seq<Seq<TrafficPolicy>>,
    ) -> Seq<TrafficPolicy> {
        self.route_levels(path.routes, inline, 0) + gather(
            self.policies,
            self.attached_to_service(path.service) + self.attached_to_listener(path.listener)
                + self.attached_to_gateway(path.listener),
            on_routes(),
        )
    }

    /// The rules of a request at a listener before a route is chosen, in order of precedence.
    pub open spec fn gateway_rules(self, name: ListenerNameView) -> Seq<TrafficPolicy> {
        gather(
            self.policies,
            self.attached_to_listener(name) + self.attached_to_listener_set(name, true)
                + self.attached_to_listener_set(name, false) + self.attached_to_gateway(name),
            before_routing(),
        )
    }

    /// The keys of the backend policies of the routes of a path, the last route first.
    pub open spec fn route_keys(self, routes: Seq<RouteNameView>, i: int) -> Seq<Text>
        decreases routes.len() - i,
    {
        if i >= routes.len() {
            Seq::empty()
        } else {
            self.route_keys(routes, i + 1) + self.attached(route_id(routes[i], true))
                + self.attached(route_id(routes[i], false))
        }
    }

    /// The keys of a backend's policies, if there is a backend.
    pub open spec fn attached_to_backend(self, target: Option<PolicyTargetView>) -> Seq<Text> {
        match target {
            Some(t) => self.attached(t.id()),
            None => Seq::empty(),
        }
    }

    /// The rules of a call of a backend, in order of precedence: the inline ones, the last list
    /// first, then those of the routes, of the section of the backend, of the backend, of the
    /// listener and of the gateway. A policy that several of these list counts where it first
    /// comes up.
    pub open spec fn backend_rules(
        self,
        backend: Option<PolicyTargetView>,
        sub_backend: Option<PolicyTargetView>,
        inline: Seq<Seq<BackendTrafficPolicy>>,
        listener: Option<ListenerNameView>,
        routes: Seq<RouteNameView>,
    ) -> Seq<BackendTrafficPolicy> {
        reversed_concat(inline, 0) + gather(
            self.policies,
            distinct(
                self.route_keys(routes, 0) + self.attached_to_backend(sub_backend)
                    + self.attached_to_backend(backend) + (match listener {
                    Some(l) => self.attached_to_listener(l) + self.attached_to_gateway(l),
                    None => Seq::empty(),
                }),
            ),
            on_backends(),
        )
    }

    /// The rules of a connection, in order of precedence: those of the service, of the listener,
    /// of its section of the listener set, of the listener set, of the port and of the gateway.
    pub open spec fn listener_frontend_rules(
        self,
        name: ListenerNameView,
        port: Option<u16>,
        service: Option<PolicyTargetView>,
    ) -> Seq<FrontendPolicy> {
        gather(
            self.policies,
            self.attached_to_backend(service) + self.attached_to_listener(name)
                + self.attached_to_listener_set(name, true) + self.attached_to_listener_set(
                name,
                false,
            ) + (match port {
                Some(p) => self.attached(gateway_id(name, None, Some(p))),
                None => Seq::empty(),
            }) + self.attached_to_gateway(name),
            on_frontends(),
        )
    }

    /// The rules of a connection to a target: those of the target, and for a port of a gateway
    /// those of the gateway behind them.
    pub open spec fn frontend_rules(self, target: PolicyTargetView) -> Seq<FrontendPolicy> {
        gather(
            self.policies,
            self.attached(target.id()) + (match parent_gateway(target) {
                Some(t) => self.attached(t.id()),
                None => Seq::empty(),
            }),
            on_frontends(),
        )
    }
}

/// The gateway of a target that is a port of it.
pub open spec fn parent_gateway(target: PolicyTargetView) -> Option<PolicyTargetView> {
    match target {
        PolicyTargetView::Gateway(t) => if t.listener_name is None && t.port is Some {
            Some(
                PolicyTargetView::Gateway(
                    crate::types::agent::ListenerTargetView { port: None, ..t },
                ),
            )
        } else {
            None
        },
        _ => None,
    }
}

/// The items of the lists from the last one up to the one at `i`.
pub open spec fn reversed_concat<X>(lists: Seq<Seq<X>>, i: int) -> Seq<X>
    decreases lists.len() - i,
{
    if i >= lists.len() {
        Seq::empty()
    } else {
        reversed_concat(lists, i + 1) + lists[i]
    }
}

/// What slices of policies hold.
pub open spec fn slice_views<X>(lists: Seq<&[X]>) -> Seq<Seq<X>> {
    lists.map_values(|l: &[X]| l@)
}

// ---------------------------------------------------------------------------------------------
// What every operation keeps
// ---------------------------------------------------------------------------------------------

/// The empty store satisfies the invariant.
pub proof fn empty_keeps_inv(ipv6_enabled: bool, cores: Option<Seq<usize>>)
    ensures
        StoreView::empty(ipv6_enabled, cores).inv(),
{
}

/// Putting a bind under its own key keeps the invariant.
pub proof fn upsert_bind_keeps_inv(s: StoreView, key: Text, bind: BindView)
    requires
        s.inv(),
        bind.key == key,
        keyed_by_key(bind.listeners),
    ensures
        s.upsert_bind(key, bind).inv(),
        s.upsert_bind(key, bind).waiting(key) == Map::<Text, ListenerView>::empty(),
{
    let t = s.upsert_bind(key, bind);
    lemma_added(s.bind_order, key);
    assert forall|k: Text| #[trigger] t.bind_order.contains(k) <==> t.binds.contains_key(k) by {
        assert(s.bind_order.contains(k) <==> s.binds.contains_key(k));
    }
    assert forall|k: Text| #[trigger] t.pending.contains_key(k) implies !t.binds.contains_key(k)
        && keyed_by_key(t.pending[k]) by {
        assert(s.pending.contains_key(k));
    }
    assert(keyed_by_key(s.completed(bind).listeners)) by {
        if s.pending.contains_key(key) {
            assert(keyed_by_key(s.pending[key]));
        }
    }
    assert forall|k: Text| #[trigger] t.binds.contains_key(k) implies t.binds[k].key == k
        && keyed_by_key(t.binds[k].listeners) by {
        if k != key {
            assert(s.binds.contains_key(k));
        }
    }
}

/// Taking a bind out keeps the invariant.
pub proof fn remove_bind_keeps_inv(s: StoreView, key: Text)
    requires
        s.inv(),
    ensures
        s.remove_bind(key).inv(),
{
    let t = s.remove_bind(key);
    lemma_without(s.bind_order, key);
    assert forall|k: Text| #[trigger] t.bind_order.contains(k) <==> t.binds.contains_key(k) by {
        assert(s.bind_order.contains(k) <==> s.binds.contains_key(k));
    }
    assert forall|k: Text| #[trigger] t.binds.contains_key(k) implies t.binds[k].key == k
        && keyed_by_key(t.binds[k].listeners) by {
        assert(s.binds.contains_key(k));
    }
    assert forall|k: Text| #[trigger] t.pending.contains_key(k) implies !t.binds.contains_key(k)
        && keyed_by_key(t.pending[k]) by {
        assert(s.pending.contains_key(k));
    }
}

/// Putting a listener on its bind, or letting it wait, keeps the invariant.
pub proof fn insert_listener_keeps_inv(s: StoreView, listener: ListenerView, bind: Text)
    requires
        s.inv(),
    ensures
        s.insert_listener(listener, bind).inv(),
{
    if s.binds.contains_key(bind) {
        let b = s.binds[bind];
        let c = BindView { listeners: b.listeners.insert(listener.key, listener), ..b };
        upsert_bind_keeps_inv(s, bind, c);
    } else {
        let t = s.insert_listener(listener, bind);
        assert forall|k: Text| #[trigger] t.pending.contains_key(k) implies !t.binds.contains_key(k)
            && keyed_by_key(t.pending[k]) by {
            if k == bind {
                if s.pending.contains_key(bind) {
                    assert(keyed_by_key(s.pending[bind]));
                }
            } else {
                assert(s.pending.contains_key(k));
            }
        }
        assert forall|k: Text| #[trigger] t.binds.contains_key(k) implies t.binds[k].key == k
            && keyed_by_key(t.binds[k].listeners) by {
            assert(s.binds.contains_key(k));
        }
    }
}

/// A bind that has the listener is one of the binds.
pub proof fn lemma_bind_of_listener(
    order: Seq<Text>,
    binds: Map<Text, BindView>,
    listener: Text,
)
    ensures
        match bind_of_listener(order, binds, listener) {
            Some(k) => order.contains(k) && binds[k].listeners.contains_key(listener),
            None => forall|k: Text| #[trigger]
                order.contains(k) ==> !binds[k].listeners.contains_key(listener),
        },
    decreases order.len(),
{
    if order.len() > 0 {
        let rest = order.drop_last();
        lemma_bind_of_listener(rest, binds, listener);
        match bind_of_listener(rest, binds, listener) {
            Some(k) => {
                let i = rest.index_of(k);
                assert(order[i] == k);
            },
            None => {
                assert(order[order.len() - 1] == order.last());
                assert forall|k: Text| #[trigger] order.contains(k) && k != order.last() implies !binds[k].listeners.contains_key(
                listener) by {
                    let i = order.index_of(k);
                    assert(rest[i] == k);
                    assert(rest.contains(k));
                }
            },
        }
    }
}

/// Taking a listener off keeps the invariant.
pub proof fn remove_listener_keeps_inv(s: StoreView, listener: Text)
    requires
        s.inv(),
    ensures
        s.remove_listener(listener).inv(),
{
    lemma_bind_of_listener(s.bind_order, s.binds, listener);
    match bind_of_listener(s.bind_order, s.binds, listener) {
        Some(key) => {
            assert(s.binds.contains_key(key));
            let b = s.binds[key];
            let c = BindView { listeners: b.listeners.remove(listener), ..b };
            upsert_bind_keeps_inv(s, key, c);
        },
        None => {},
    }
}

/// Detaching a policy takes its key out of the lists, and changes nothing else in them.
proof fn lemma_detached(s: StoreView, key: Text)
    requires
        s.inv(),
    ensures
        forall|id: TargetId, k: Text|
            #![trigger keys_at(s.detached(key), id).contains(k)]
            keys_at(s.detached(key), id).contains(k) <==> (keys_at(s.by_target, id).contains(k) && k
                != key),
        forall|id: TargetId| #[trigger]
            s.detached(key).contains_key(id) ==> s.detached(key)[id].no_duplicates(),
{
    let d = s.detached(key);
    if s.policies.contains_key(key) {
        let own = s.policies[key].target@.id();
        assert(keys_at(s.by_target, own).contains(key));
        assert(s.by_target.contains_key(own));
        lemma_without(s.by_target[own], key);
        assert forall|id: TargetId, k: Text|
            #![trigger keys_at(d, id).contains(k)]
            keys_at(d, id).contains(k) <==> (keys_at(s.by_target, id).contains(k) && k != key) by {
            if id == own {
                assert(keys_at(d, id) == without(s.by_target[own], key));
            } else {
                assert(keys_at(d, id) == keys_at(s.by_target, id));
            }
        }
        assert forall|id: TargetId| #[trigger] d.contains_key(id) implies d[id].no_duplicates() by {
            if id != own {
                assert(s.by_target.contains_key(id));
            }
        }
    } else {
        assert forall|id: TargetId, k: Text|
            #![trigger keys_at(d, id).contains(k)]
            keys_at(d, id).contains(k) implies k != key by {
            assert(keys_at(s.by_target, id).contains(k));
        }
    }
}

/// Attaching a policy keeps the invariant.
pub proof fn insert_policy_keeps_inv(s: StoreView, pol: TargetedPolicy)
    requires
        s.inv(),
    ensures
        s.insert_policy(pol).inv(),
{
    let key = pol.key@;
    let id = pol.target@.id();
    let t = s.insert_policy(pol);
    let d = s.detached(key);
    lemma_detached(s, key);
    if !d.contains_key(id) {
        assert(Seq::<Text>::empty().no_duplicates());
    }
    lemma_added(keys_at(d, id), key);
    lemma_added(s.policy_order, key);
    assert forall|k: Text| #[trigger] t.policy_order.contains(k) <==> t.policies.contains_key(k) by {
        assert(s.policy_order.contains(k) <==> s.policies.contains_key(k));
    }
    assert forall|k: Text| #[trigger] t.policies.contains_key(k) implies t.policies[k].key@ == k
        && keys_at(t.by_target, t.policies[k].target@.id()).contains(k) by {
        if k == key {
            assert(keys_at(t.by_target, id) == added(keys_at(d, id), key));
        } else {
            assert(s.policies.contains_key(k));
            let other = s.policies[k].target@.id();
            assert(keys_at(s.by_target, other).contains(k));
            assert(keys_at(d, other).contains(k));
            if other == id {
                assert(keys_at(t.by_target, id) == added(keys_at(d, id), key));
            } else {
                assert(keys_at(t.by_target, other) == keys_at(d, other));
            }
        }
    }
    assert forall|i: TargetId, k: Text| #[trigger] keys_at(t.by_target, i).contains(k) implies
        t.policies.contains_key(k) && t.policies[k].target@.id() == i by {
        if i == id {
            assert(keys_at(t.by_target, id) == added(keys_at(d, id), key));
            if k != key {
                assert(keys_at(d, id).contains(k));
                assert(keys_at(s.by_target, id).contains(k));
            }
        } else {
            assert(keys_at(t.by_target, i) == keys_at(d, i));
            assert(keys_at(d, i).contains(k));
            assert(keys_at(s.by_target, i).contains(k));
        }
    }
    assert forall|i: TargetId| #[trigger] t.by_target.contains_key(i) implies t.by_target[i].no_duplicates() by {
        if i != id {
            assert(d.contains_key(i));
        }
    }
    lemma_binds_part(s, t);
}

/// The part of the invariant that does not speak of policies carries over where nothing else
/// changed.
proof fn lemma_binds_part(s: StoreView, t: StoreView)
    requires
        s.inv(),
        t.binds == s.binds,
        t.bind_order == s.bind_order,
        t.pending == s.pending,
        t.http_routes == s.http_routes,
        t.tcp_routes == s.tcp_routes,
        t.policy_order.no_duplicates(),
        forall|k: Text| #[trigger] t.policy_order.contains(k) <==> t.policies.contains_key(k),
        policies_indexed(t.policies, t.by_target),
    ensures
        t.inv(),
{
}

/// Detaching a policy keeps the invariant.
pub proof fn remove_policy_keeps_inv(s: StoreView, key: Text)
    requires
        s.inv(),
    ensures
        s.remove_policy(key).inv(),
{
    let t = s.remove_policy(key);
    let d = s.detached(key);
    lemma_detached(s, key);
    lemma_without(s.policy_order, key);
    assert forall|k: Text| #[trigger] t.policy_order.contains(k) <==> t.policies.contains_key(k) by {
        assert(s.policy_order.contains(k) <==> s.policies.contains_key(k));
    }
    assert forall|k: Text| #[trigger] t.policies.contains_key(k) implies t.policies[k].key@ == k
        && keys_at(t.by_target, t.policies[k].target@.id()).contains(k) by {
        assert(s.policies.contains_key(k));
        let other = s.policies[k].target@.id();
        assert(keys_at(s.by_target, other).contains(k));
        assert(keys_at(d, other).contains(k));
    }
    assert forall|i: TargetId, k: Text| #[trigger] keys_at(t.by_target, i).contains(k) implies
        t.policies.contains_key(k) && t.policies[k].target@.id() == i by {
        assert(keys_at(d, i).contains(k));
        assert(keys_at(s.by_target, i).contains(k));
    }
    lemma_binds_part(s, t);
}

/// Putting a route under a target leaves every target with routes under their keys.
pub proof fn lemma_with_route<R: Keyed>(
    routes: Map<TargetId, Map<Text, Arc<R>>>,
    target: RouteTargetView,
    route: R,
)
    requires
        routes_ok(routes),
    ensures
        routes_ok(with_route(routes, target.id(), route)),
{
    let id = target.id();
    let t = with_route(routes, id, route);
    assert forall|i: TargetId| #[trigger] t.contains_key(i) implies owns_routes(i) && t[i] != Map::<
        Text,
        Arc<R>,
    >::empty() && routes_keyed(t[i]) by {
        if i == id {
            assert(t[i].contains_key(route.key_text()));
            assert(routes_keyed(routes_at(routes, id)));
        } else {
            assert(routes.contains_key(i));
        }
    }
}

/// Taking a route out leaves every target with routes under their keys.
pub proof fn lemma_without_route<R: Keyed>(routes: Map<TargetId, Map<Text, Arc<R>>>, key: Text)
    requires
        routes_ok(routes),
    ensures
        routes_ok(without_route(routes, key)),
{
    let t = without_route(routes, key);
    assert forall|i: TargetId| #[trigger] t.contains_key(i) implies owns_routes(i) && t[i] != Map::<
        Text,
        Arc<R>,
    >::empty() && routes_keyed(t[i]) by {
        assert(routes.contains_key(i));
        assert(routes_keyed(routes[i]));
    }
}

/// Putting a route under a target keeps the invariant.
pub proof fn insert_route_keeps_inv(s: StoreView, target: RouteTargetView, route: Route)
    requires
        s.inv(),
    ensures
        s.insert_http_route(target, route).inv(),
{
    lemma_with_route(s.http_routes, target, route);
}

/// Putting a TCP route under a target keeps the invariant.
pub proof fn insert_tcp_route_keeps_inv(s: StoreView, target: RouteTargetView, route: TCPRoute)
    requires
        s.inv(),
    ensures
        s.insert_tcp_route(target, route).inv(),
{
    lemma_with_route(s.tcp_routes, target, route);
}

/// Putting a backend in keeps the invariant.
pub proof fn insert_backend_keeps_inv(s: StoreView, key: Text, backend: BackendWithPolicies)
    requires
        s.inv(),
    ensures
        s.insert_backend(key, backend).inv(),
{
}

/// Taking a route, a TCP route, a group of routes or a backend out keeps the invariant.
pub proof fn removals_keep_inv(s: StoreView, key: Text)
    requires
        s.inv(),
    ensures
        s.remove_route(key).inv(),
        s.remove_tcp_route(key).inv(),
        s.remove_route_group(key).inv(),
        s.remove_backend(key).inv(),
{
    lemma_without_route(s.http_routes, key);
    lemma_without_route(s.tcp_routes, key);
    let g = s.remove_route_group(key);
    assert forall|i: TargetId| #[trigger] g.http_routes.contains_key(i) implies owns_routes(i)
        && g.http_routes[i] != Map::<Text, Arc<Route>>::empty() && routes_keyed(
        g.http_routes[i],
    ) by {
        assert(s.http_routes.contains_key(i));
    }
}

/// Taking out what a resource was stored as keeps the invariant.
pub proof fn remove_resource_keeps_inv(s: StoreView, name: Text)
    requires
        s.inv(),
    ensures
        s.remove_resource(name).inv(),
{
    if s.resources.contains_key(name) {
        let rest = StoreView { resources: s.resources.remove(name), ..s };
        assert(rest.inv());
        match s.resources[name] {
            ResourceKindView::Policy(k) => remove_policy_keeps_inv(rest, k),
            ResourceKindView::Bind(k) => remove_bind_keeps_inv(rest, k),
            ResourceKindView::Route(k) => lemma_without_route(rest.http_routes, k),
            ResourceKindView::TcpRoute(k) => lemma_without_route(rest.tcp_routes, k),
            ResourceKindView::Listener(k) => remove_listener_keeps_inv(rest, k),
            ResourceKindView::Backend(k) => {},
        }
    }
}

} // verus!
