//! Laws of single changes of the store: what each of them does to what is found.

use std::sync::Arc;

use vstd::prelude::*;

use crate::store::binds::{group_routes_id, serves, shutdowns, ShutdownPolicy};
use crate::store::model::{
    bind_of_listener, route_target_identity_is_injective, service_routes_id, BindEvent,
    BindEventView, BindListeners, BindListenersView, ResourceKind, ResourceKindView, RouteTarget,
    RouteTargetView, StoreView,
};
use crate::store::policies::{
    merged, BackendPolicies, FrontendPolices, FrontendPolicesView, RoutePath,
};
use crate::store::queries::{in_use, used_at};
use crate::store::sync::{found, route_at};
use crate::store::updater::{backends_in_order, bind_dumped, dumped, in_order, Dump};
use crate::store::xds::{
    after_updates, rejections, RejectedConfig, RejectedConfigView, XdsBind, XdsResource, XdsUpdate,
};
use crate::text::Text;
use crate::types::agent::{
    without_section, Backend, BackendView, BackendWithPolicies, BindView, ListenerView,
    NamespacedHostnameView, PolicyTargetView, Route, SocketAddr, TCPRoute,
};
use crate::types::frontend::{AccessLogPolicy, FrontendPolicy};

verus! {

// ---------------------------------------------------------------------------------------------
// Binds and listeners
// ---------------------------------------------------------------------------------------------

/// A bind that is put in place is served at its address with its protocol, with its own listeners
/// and those that waited for it; of two with one key the one that waited stands. No listener waits
/// for it any more. The other binds, and everything else that the store holds, stay as they are.
pub proof fn bind_is_served_with_its_listeners(s: StoreView, bind: BindView, k: Text, l: Text)
    ensures
        ({
            let t = s.insert_bind(bind);
            let b = t.binds[bind.key];
            let waited = s.pending.contains_key(bind.key) && s.pending[bind.key].contains_key(l);
            &&& t.binds.contains_key(bind.key)
            &&& b.key == bind.key
            &&& b.address == bind.address
            &&& b.protocol == bind.protocol
            &&& b.tunnel_protocol == bind.tunnel_protocol
            &&& found(b.listeners, l) == (if waited {
                Some(s.pending[bind.key][l])
            } else {
                found(bind.listeners, l)
            })
            &&& !t.pending.contains_key(bind.key)
            &&& k != bind.key ==> found(t.binds, k) == found(s.binds, k) && found(t.pending, k)
                == found(s.pending, k)
            &&& t.policies == s.policies
            &&& t.policy_order == s.policy_order
            &&& t.by_target == s.by_target
            &&& t.backends == s.backends
            &&& t.http_routes == s.http_routes
            &&& t.tcp_routes == s.tcp_routes
            &&& t.resources == s.resources
            &&& t.bind_order == (if s.bind_order.contains(bind.key) {
                s.bind_order
            } else {
                s.bind_order.push(bind.key)
            })
        }),
{
}

/// A bind that is new is announced once, with its sockets: one for each core if the store serves
/// each core apart, else one. A bind that replaces another is not announced again.
pub proof fn new_bind_is_announced(s: StoreView, bind: BindView)
    ensures
        ({
            let t = s.insert_bind(bind);
            &&& s.binds.contains_key(bind.key) ==> t.events == s.events
            &&& !s.binds.contains_key(bind.key) ==> t.events == s.events.push(
                BindEventView::Add(
                    t.binds[bind.key],
                    match s.cores {
                        Some(cores) => BindListenersView::PerCore(bind.address, cores),
                        None => BindListenersView::Single(bind.address),
                    },
                ),
            )
        }),
{
}

/// Watchers are told of a bind that is put in place again exactly if one of the listeners that it
/// had is gone or differs. They are told by a count that goes up by one, until it is at its end.
pub proof fn watchers_are_told_of_changed_listeners(s: StoreView, bind: BindView)
    ensures
        ({
            let t = s.insert_bind(bind);
            let told = s.binds.contains_key(bind.key) && exists|l: Text| #[trigger]
                s.binds[bind.key].listeners.contains_key(l) && found(
                    t.binds[bind.key].listeners,
                    l,
                ) != Some(s.binds[bind.key].listeners[l]);
            &&& told && s.epoch < u64::MAX ==> t.epoch == s.epoch + 1
            &&& told && s.epoch == u64::MAX ==> t.epoch == s.epoch
            &&& !told ==> t.epoch == s.epoch
        }),
{
    let t = s.insert_bind(bind);
    if s.binds.contains_key(bind.key) {
        let before = s.binds[bind.key].listeners;
        let after = t.binds[bind.key].listeners;
        if exists|l: Text| #[trigger]
            before.contains_key(l) && found(after, l) != Some(before[l]) {
            let l = choose|l: Text| #[trigger]
                before.contains_key(l) && found(after, l) != Some(before[l]);
            assert(before.contains_key(l) && !(after.contains_key(l) && after[l] == before[l]));
        }
        if exists|l: Text| #[trigger]
            before.contains_key(l) && !(after.contains_key(l) && after[l] == before[l]) {
            let l = choose|l: Text| #[trigger]
                before.contains_key(l) && !(after.contains_key(l) && after[l] == before[l]);
            assert(before.contains_key(l) && found(after, l) != Some(before[l]));
        }
    }
}

/// A bind that is taken out is gone, and that is announced. The other binds stay in their order.
pub proof fn removed_bind_is_gone(s: StoreView, key: Text, k: Text)
    requires
        s.inv(),
    ensures
        ({
            let t = s.remove_bind(key);
            &&& found(t.binds, k) == (if k == key {
                None
            } else {
                found(s.binds, k)
            })
            &&& t.events == s.events.push(BindEventView::Remove(key))
            &&& t.bind_order.contains(k) <==> s.bind_order.contains(k) && k != key
            &&& t == (StoreView {
                binds: t.binds,
                bind_order: t.bind_order,
                events: t.events,
                ..s
            })
        }),
{
    crate::keyed::lemma_without(s.bind_order, key);
}

/// A listener that is added stands on its bind under its own key, beside those that were there. If
/// the bind is not there it waits, beside those that wait already.
pub proof fn added_listener_is_on_its_bind(
    s: StoreView,
    listener: ListenerView,
    bind: Text,
    l: Text,
    k: Text,
)
    requires
        s.inv(),
    ensures
        ({
            let t = s.insert_listener(listener, bind);
            &&& s.binds.contains_key(bind) ==> {
                &&& t.binds.contains_key(bind)
                &&& found(t.binds[bind].listeners, l) == (if l == listener.key {
                    Some(listener)
                } else {
                    found(s.binds[bind].listeners, l)
                })
                &&& t.binds[bind].address == s.binds[bind].address
                &&& t.binds[bind].protocol == s.binds[bind].protocol
                &&& t.binds[bind].tunnel_protocol == s.binds[bind].tunnel_protocol
                &&& t.pending == s.pending
                &&& t.events == s.events
            }
            &&& !s.binds.contains_key(bind) ==> {
                &&& t.binds == s.binds
                &&& t.pending.contains_key(bind)
                &&& found(t.pending[bind], l) == (if l == listener.key {
                    Some(listener)
                } else if s.pending.contains_key(bind) {
                    found(s.pending[bind], l)
                } else {
                    None
                })
                &&& t.epoch == s.epoch
                &&& t.events == s.events
            }
            &&& k != bind ==> found(t.binds, k) == found(s.binds, k) && found(t.pending, k)
                == found(s.pending, k)
            &&& t.policies == s.policies
            &&& t.backends == s.backends
            &&& t.http_routes == s.http_routes
            &&& t.tcp_routes == s.tcp_routes
        }),
{
    if s.binds.contains_key(bind) {
        assert(s.binds[bind].key == bind);
        assert(!s.pending.contains_key(bind));
        assert(s.pending.remove(bind) =~= s.pending);
    }
}

/// A listener that is taken off is gone from the first bind that has it; that bind keeps the
/// others, and the other binds keep theirs. If no bind has it nothing changes.
pub proof fn removed_listener_is_off_its_bind(s: StoreView, listener: Text, i: int, l: Text, k: Text)
    requires
        s.inv(),
    ensures
        ({
            let t = s.remove_listener(listener);
            &&& 0 <= i < s.bind_order.len() && s.binds[s.bind_order[i]].listeners.contains_key(
                listener,
            ) && (forall|j: int|
                0 <= j < i ==> !s.binds[#[trigger] s.bind_order[j]].listeners.contains_key(
                    listener,
                )) ==> {
                let key = s.bind_order[i];
                &&& t.binds.contains_key(key)
                &&& found(t.binds[key].listeners, l) == (if l == listener {
                    None
                } else {
                    found(s.binds[key].listeners, l)
                })
                &&& t.binds[key].address == s.binds[key].address
                &&& t.binds[key].protocol == s.binds[key].protocol
                &&& t.binds[key].tunnel_protocol == s.binds[key].tunnel_protocol
                &&& k != key ==> found(t.binds, k) == found(s.binds, k)
                &&& s.epoch < u64::MAX ==> t.epoch == s.epoch + 1
                &&& t.events == s.events
            }
            &&& (forall|j: int|
                0 <= j < s.bind_order.len()
                    ==> !s.binds[#[trigger] s.bind_order[j]].listeners.contains_key(listener))
                ==> t == s
        }),
{
    if 0 <= i < s.bind_order.len() && s.binds[s.bind_order[i]].listeners.contains_key(listener) && (
    forall|j: int|
        0 <= j < i ==> !s.binds[#[trigger] s.bind_order[j]].listeners.contains_key(listener)) {
        let key = s.bind_order[i];
        lemma_first_bind(s.bind_order, s.binds, listener, i);
        assert(s.bind_order.contains(key));
        assert(s.binds.contains_key(key));
        assert(s.binds[key].key == key);
        assert(!s.pending.contains_key(key));
        let t = s.remove_listener(listener);
        assert(s.binds[key].listeners.contains_key(listener)
            && !t.binds[key].listeners.contains_key(listener));
    }
    if forall|j: int|
        0 <= j < s.bind_order.len() ==> !s.binds[#[trigger] s.bind_order[j]].listeners.contains_key(
            listener,
        ) {
        lemma_no_bind(s.bind_order, s.binds, listener);
    }
}

proof fn lemma_first_bind(
    order: Seq<Text>,
    binds: Map<Text, BindView>,
    listener: Text,
    i: int,
)
    requires
        0 <= i < order.len(),
        binds[order[i]].listeners.contains_key(listener),
        forall|j: int|
            0 <= j < i ==> !binds[#[trigger] order[j]].listeners.contains_key(listener),
    ensures
        bind_of_listener(order, binds, listener) == Some(order[i]),
    decreases order.len(),
{
    if i == order.len() - 1 {
        lemma_no_bind(order.drop_last(), binds, listener);
    } else {
        lemma_first_bind(order.drop_last(), binds, listener, i);
    }
}

proof fn lemma_no_bind(order: Seq<Text>, binds: Map<Text, BindView>, listener: Text)
    requires
        forall|j: int|
            0 <= j < order.len() ==> !binds[#[trigger] order[j]].listeners.contains_key(listener),
    ensures
        bind_of_listener(order, binds, listener) is None,
    decreases order.len(),
{
    if order.len() > 0 {
        lemma_no_bind(order.drop_last(), binds, listener);
    }
}

/// A bind takes connections to its own address. One at the unspecified address takes those to
/// every address at its port; no bind takes a connection to another port.
pub proof fn binds_take_their_connections(have: SocketAddr, want: SocketAddr)
    ensures
        serves(have, have),
        serves(SocketAddr::V4 { ip: 0, port: want.port_of() }, want),
        serves(
            SocketAddr::V6 { ip: 0, port: want.port_of(), flowinfo: 0, scope_id: 0 },
            want,
        ),
        serves(have, want) ==> have.port_of() == want.port_of(),
        have matches SocketAddr::V4 { ip, port } ==> have.port_of() == port && (ip != 0 ==> (serves(
            have,
            want,
        ) <==> have == want)),
        have matches SocketAddr::V6 { ip, port, flowinfo, scope_id } ==> have.port_of() == port && (
        ip != 0 ==> (serves(have, want) <==> have == want)),
{
}

// ---------------------------------------------------------------------------------------------
// Backends and routes
// ---------------------------------------------------------------------------------------------

/// A backend that is put under a key is found there, in place of the one that was; the others stay.
/// Tokenizers are wanted once a backend was stored of which some provider counts tokens.
pub proof fn stored_backend_is_found(
    s: StoreView,
    key: Text,
    backend: BackendWithPolicies,
    k: Text,
)
    ensures
        ({
            let t = s.insert_backend(key, backend);
            &&& found(t.backends, k) == (if k == key {
                Some(Arc::new(backend))
            } else {
                found(s.backends, k)
            })
            &&& t.tokenizes <==> s.tokenizes || (backend.backend matches Backend::AI(_, ai)
                && exists|i: int, j: int|
                0 <= i < ai.providers@.len() && 0 <= j < ai.providers@[i]@.len()
                    && #[trigger] ai.providers@[i]@[j].1.tokenize)
            &&& t == (StoreView { backends: t.backends, tokenizes: t.tokenizes, ..s })
            &&& found(s.remove_backend(key).backends, k) == (if k == key {
                None
            } else {
                found(s.backends, k)
            })
            &&& s.remove_backend(key) == (StoreView {
                backends: s.remove_backend(key).backends,
                ..s
            })
        }),
{
}

/// A route that is put under a target is found there under its key, in place of the one that was;
/// every other route is found as before. A route that is taken out is found under no target, a
/// group that is taken out has no routes, and every other route is found as before.
pub proof fn routes_are_found_where_they_were_put(
    s: StoreView,
    owner: RouteTargetView,
    route: Route,
    target: RouteTargetView,
    key: Text,
    k: Text,
)
    ensures
        route_at(s.insert_http_route(owner, route).http_routes, target, k) == (if target == owner
            && k == route.key@ {
            Some(Arc::new(route))
        } else {
            route_at(s.http_routes, target, k)
        }),
        s.insert_http_route(owner, route).tcp_routes == s.tcp_routes,
        route_at(s.remove_route(key).http_routes, target, k) == (if k == key {
            None
        } else {
            route_at(s.http_routes, target, k)
        }),
        s.remove_route(key).tcp_routes == s.tcp_routes,
        route_at(s.remove_route_group(key).http_routes, target, k) == (if target
            == RouteTargetView::RouteGroup(key) {
            None
        } else {
            route_at(s.http_routes, target, k)
        }),
        s.remove_route_group(key).tcp_routes == s.tcp_routes,
{
    route_target_identity_is_injective(target, owner);
    route_target_identity_is_injective(target, RouteTargetView::RouteGroup(key));
    let id = target.id();
    if s.http_routes.contains_key(id) && s.http_routes[id].contains_key(k) && k != key {
        assert(s.http_routes[id].remove(key).contains_key(k));
        assert(s.http_routes[id].remove(key) != Map::<Text, Arc<Route>>::empty());
    }
}

/// A TCP route that is put under a target is found there under its key, in place of the one that
/// was; one that is taken out is found under no target. Every other TCP route, and every HTTP
/// route, is found as before.
pub proof fn tcp_routes_are_found_where_they_were_put(
    s: StoreView,
    owner: RouteTargetView,
    route: TCPRoute,
    target: RouteTargetView,
    key: Text,
    k: Text,
)
    ensures
        route_at(s.insert_tcp_route(owner, route).tcp_routes, target, k) == (if target == owner && k
            == route.key@ {
            Some(Arc::new(route))
        } else {
            route_at(s.tcp_routes, target, k)
        }),
        s.insert_tcp_route(owner, route).http_routes == s.http_routes,
        route_at(s.remove_tcp_route(key).tcp_routes, target, k) == (if k == key {
            None
        } else {
            route_at(s.tcp_routes, target, k)
        }),
        s.remove_tcp_route(key).http_routes == s.http_routes,
{
    route_target_identity_is_injective(target, owner);
    let id = target.id();
    if s.tcp_routes.contains_key(id) && s.tcp_routes[id].contains_key(k) && k != key {
        assert(s.tcp_routes[id].remove(key).contains_key(k));
        assert(s.tcp_routes[id].remove(key) != Map::<Text, Arc<TCPRoute>>::empty());
    }
}

/// A named backend is held under its namespace and name, a service under its namespace, host name
/// and port.
pub proof fn backends_are_held_under_their_names(b: BackendView)
    ensures
        match b {
            BackendView::Service(n, port) => b.name_text() == "service/"@ + n.namespace + "/"@
                + n.hostname + ":"@ + crate::text::decimal(port as nat),
            BackendView::Opaque(n, _) => b.name_text() == n.namespace + "/"@ + n.name,
            BackendView::MCP(n, _) => b.name_text() == n.namespace + "/"@ + n.name,
            BackendView::AI(n, _) => b.name_text() == n.namespace + "/"@ + n.name,
            BackendView::Aws(n, _) => b.name_text() == n.namespace + "/"@ + n.name,
            BackendView::Dynamic(n) => b.name_text() == n.namespace + "/"@ + n.name,
            BackendView::Invalid => b.name_text() == "invalid"@,
        },
{
}

/// Without its section, a section of a backend is the backend, and a port of a service is the
/// service.
pub proof fn target_without_its_section_is_the_whole(t: PolicyTargetView)
    ensures
        match t {
            PolicyTargetView::Backend { name, namespace, section } => without_section(t) == (
            PolicyTargetView::Backend { name, namespace, section: None }),
            PolicyTargetView::Service { hostname, namespace, port } => without_section(t) == (
            PolicyTargetView::Service { hostname, namespace, port: None }),
            _ => without_section(t) == t,
        },
{
}

/// On shutdown every access log and every tracer is flushed, in the order of the policies, and
/// nothing else is.
pub proof fn every_exporter_is_flushed(rules: Seq<FrontendPolicy>, rule: FrontendPolicy)
    ensures
        shutdowns(Seq::empty()) == Seq::<ShutdownPolicy>::empty(),
        shutdowns(rules.push(rule)) == (match rule {
            FrontendPolicy::AccessLog(p) => shutdowns(rules).push(
                ShutdownPolicy::AccessLog(p.access_log_policy),
            ),
            FrontendPolicy::Tracing(p) => shutdowns(rules).push(ShutdownPolicy::Tracing(p)),
            _ => shutdowns(rules),
        }),
{
    assert(rules.push(rule).drop_last() =~= rules);
}

// ---------------------------------------------------------------------------------------------
// Resources of a control plane
// ---------------------------------------------------------------------------------------------

/// A resource that is taken in is stored as what it is, and remembered under its name: taking the
/// name out takes out what was stored. A resource that could not be read is remembered, and
/// nothing is stored of it.
pub proof fn resources_are_stored_as_what_they_are(s: StoreView, name: Text, res: XdsResource)
    ensures
        ({
            let t = s.insert_xds(name, res);
            match res {
                XdsResource::Bind { key, decoded: Ok(raw) } => t == s.note_resource(
                    name,
                    ResourceKindView::Bind(key@),
                ).insert_xds_bind(raw),
                XdsResource::Listener { key, decoded: Ok(pair) } => t == s.note_resource(
                    name,
                    ResourceKindView::Listener(key@),
                ).insert_listener(pair.0@, pair.1@),
                XdsResource::Backend { key, decoded: Ok(b) } => t == s.note_resource(
                    name,
                    ResourceKindView::Backend(key@),
                ).insert_backend(key@, b),
                XdsResource::Policy { key, decoded: Ok(p) } => t == s.note_resource(
                    name,
                    ResourceKindView::Policy(key@),
                ).insert_policy(p),
                XdsResource::Route { key, decoded: Ok(triple) } => t == s.note_resource(
                    name,
                    ResourceKindView::Route(key@),
                ).insert_http_route(
                    match triple.2 {
                        Some(g) => RouteTargetView::RouteGroup(g@),
                        None => match triple.0.service_key {
                            Some(service) => RouteTargetView::Service(service@),
                            None => RouteTargetView::Listener(triple.1@),
                        },
                    },
                    triple.0,
                ),
                XdsResource::TcpRoute { key, decoded: Ok(pair) } => t == s.note_resource(
                    name,
                    ResourceKindView::TcpRoute(key@),
                ).insert_tcp_route(
                    match pair.0.service_key {
                        Some(service) => RouteTargetView::Service(service@),
                        None => RouteTargetView::Listener(pair.1@),
                    },
                    pair.0,
                ),
                XdsResource::Bind { key, decoded: Err(_) } => t == s.note_resource(
                    name,
                    ResourceKindView::Bind(key@),
                ),
                XdsResource::Listener { key, decoded: Err(_) } => t == s.note_resource(
                    name,
                    ResourceKindView::Listener(key@),
                ),
                XdsResource::Backend { key, decoded: Err(_) } => t == s.note_resource(
                    name,
                    ResourceKindView::Backend(key@),
                ),
                XdsResource::Policy { key, decoded: Err(_) } => t == s.note_resource(
                    name,
                    ResourceKindView::Policy(key@),
                ),
                XdsResource::Route { key, decoded: Err(_) } => t == s.note_resource(
                    name,
                    ResourceKindView::Route(key@),
                ),
                XdsResource::TcpRoute { key, decoded: Err(_) } => t == s.note_resource(
                    name,
                    ResourceKindView::TcpRoute(key@),
                ),
                XdsResource::Unknown => t == s,
            }
        }),
{
}

/// A resource is refused exactly if it could not be read, for the reason that was given, or if its
/// kind is not known.
pub proof fn unreadable_resources_are_refused(res: XdsResource)
    ensures
        match res {
            XdsResource::Bind { key, decoded } => res.refusal() == (match decoded {
                Ok(_) => None,
                Err(e) => Some(e@),
            }),
            XdsResource::Listener { key, decoded } => res.refusal() == (match decoded {
                Ok(_) => None,
                Err(e) => Some(e@),
            }),
            XdsResource::Route { key, decoded } => res.refusal() == (match decoded {
                Ok(_) => None,
                Err(e) => Some(e@),
            }),
            XdsResource::TcpRoute { key, decoded } => res.refusal() == (match decoded {
                Ok(_) => None,
                Err(e) => Some(e@),
            }),
            XdsResource::Backend { key, decoded } => res.refusal() == (match decoded {
                Ok(_) => None,
                Err(e) => Some(e@),
            }),
            XdsResource::Policy { key, decoded } => res.refusal() == (match decoded {
                Ok(_) => None,
                Err(e) => Some(e@),
            }),
            XdsResource::Unknown => res.refusal() == Some("unknown resource type"@),
        },
{
}

/// A name stands for the resource that it was last given: taking it out takes that out, whatever
/// its kind, and forgets the name. A name that stands for nothing changes nothing.
pub proof fn removed_resource_takes_out_what_it_was(s: StoreView, name: Text)
    ensures
        ({
            let t = s.remove_resource(name);
            let rest = StoreView { resources: s.resources.remove(name), ..s };
            &&& !s.resources.contains_key(name) ==> t == s
            &&& s.resources.contains_key(name) ==> match s.resources[name] {
                ResourceKindView::Policy(k) => t == rest.remove_policy(k),
                ResourceKindView::Bind(k) => t == rest.remove_bind(k),
                ResourceKindView::Route(k) => t == rest.remove_route(k),
                ResourceKindView::TcpRoute(k) => t == rest.remove_tcp_route(k),
                ResourceKindView::Listener(k) => t == rest.remove_listener(k),
                ResourceKindView::Backend(k) => t == rest.remove_backend(k),
            }
        }),
{
}

/// A name that is noted stands for what it was noted as; the other names stand for what they did,
/// and nothing but the names changes.
pub proof fn noted_resource_is_remembered(
    s: StoreView,
    name: Text,
    kind: ResourceKindView,
    other: Text,
)
    ensures
        found(s.note_resource(name, kind).resources, other) == (if other == name {
            Some(kind)
        } else {
            found(s.resources, other)
        }),
        s.note_resource(name, kind) == (StoreView {
            resources: s.note_resource(name, kind).resources,
            ..s
        }),
{
}

/// A bind of a control plane is served at every address of the host, at its port, with the
/// protocols that it asks for. It keeps the listeners that the bind with its key has.
pub proof fn control_plane_bind_is_served_everywhere(s: StoreView, raw: XdsBind, l: Text)
    requires
        s.inv(),
    ensures
        ({
            let t = s.insert_xds_bind(raw);
            let b = t.binds[raw.key@];
            &&& t.binds.contains_key(raw.key@)
            &&& b.key == raw.key@
            &&& s.ipv6_enabled ==> b.address == (SocketAddr::V6 {
                ip: 0,
                port: raw.port,
                flowinfo: 0,
                scope_id: 0,
            })
            &&& !s.ipv6_enabled ==> b.address == (SocketAddr::V4 { ip: 0, port: raw.port })
            &&& b.protocol == raw.protocol
            &&& b.tunnel_protocol == raw.tunnel_protocol
            &&& found(b.listeners, l) == (if s.binds.contains_key(raw.key@) {
                found(s.binds[raw.key@].listeners, l)
            } else if s.pending.contains_key(raw.key@) {
                found(s.pending[raw.key@], l)
            } else {
                None
            })
        }),
{
}

/// Updates take effect one after the other, in order.
pub proof fn updates_take_effect_in_order(s: StoreView, updates: Seq<XdsUpdate>, u: XdsUpdate)
    ensures
        after_updates(s, Seq::empty()) == s,
        after_updates(s, updates.push(u)) == (match u {
            XdsUpdate::Update { name, resource, warnings } => after_updates(
                s,
                updates,
            ).insert_xds(name@, resource),
            XdsUpdate::Remove(name) => after_updates(s, updates).remove_resource(name@),
        }),
{
    assert(updates.push(u).drop_last() =~= updates);
}

/// The control plane is told in order: of a resource that is refused its reason, of one that is
/// taken in each of its warnings, and of a removal nothing.
pub proof fn control_plane_is_told_in_order(updates: Seq<XdsUpdate>, u: XdsUpdate, i: int)
    ensures
        rejections(Seq::empty()) == Seq::<RejectedConfigView>::empty(),
        ({
            let before = rejections(updates);
            let after = rejections(updates.push(u));
            match u {
                XdsUpdate::Update { name, resource, warnings } => match resource.refusal() {
                    Some(message) => after == before.push(
                        RejectedConfigView { name: name@, message, warning: false },
                    ),
                    None => {
                        &&& after.len() == before.len() + warnings@.len()
                        &&& 0 <= i < before.len() ==> after[i] == before[i]
                        &&& 0 <= i < warnings@.len() ==> after[before.len() + i] == (
                        RejectedConfigView { name: name@, message: warnings@[i]@, warning: true })
                    },
                },
                XdsUpdate::Remove(_) => after == before,
            }
        }),
{
    assert(updates.push(u).drop_last() =~= updates);
}

// ---------------------------------------------------------------------------------------------
// Dumps
// ---------------------------------------------------------------------------------------------

/// A dump has every bind of the store with each of its listeners, and nothing else: of each
/// listener its HTTP and TCP routes, as far as it has some.
pub proof fn dumps_have_every_bind(d: Dump, s: StoreView, k: Text, l: Text)
    requires
        s.inv(),
        dumped(d, s),
        s.binds.contains_key(k),
    ensures
        d.binds@.len() == s.bind_order.len(),
        exists|i: int|
            0 <= i < d.binds@.len() && ({
                let b = #[trigger] d.binds@[i];
                let id = RouteTargetView::Listener(s.binds[k].listeners[l].key).id();
                &&& (*b.bind)@ == s.binds[k]
                &&& b.listeners@.contains_key(l) <==> s.binds[k].listeners.contains_key(l)
                &&& b.listeners@.contains_key(l) ==> {
                    &&& (*b.listeners@[l].listener)@ == s.binds[k].listeners[l]
                    &&& b.listeners@[l].routes is Some <==> s.http_routes.contains_key(id)
                    &&& b.listeners@[l].routes matches Some(r) ==> (*r)@ == s.http_routes[id]
                    &&& b.listeners@[l].tcp_routes is Some <==> s.tcp_routes.contains_key(id)
                    &&& b.listeners@[l].tcp_routes matches Some(r) ==> (*r)@ == s.tcp_routes[id]
                }
            }),
{
    let order = choose|order: Seq<Text>| #[trigger]
        in_order(order, s.bind_order) && order.len() == d.binds@.len() && forall|i: int|
            0 <= i < order.len() ==> bind_dumped(#[trigger] d.binds@[i], s, s.binds[order[i]]);
    assert(s.bind_order.contains(k));
    assert(order.contains(k));
    let i = order.index_of(k);
    assert(bind_dumped(d.binds@[i], s, s.binds[order[i]]));
    lemma_same_length(order, s.bind_order);
}

proof fn lemma_same_length(a: Seq<Text>, b: Seq<Text>)
    requires
        a.no_duplicates(),
        b.no_duplicates(),
        forall|k: Text| #[trigger] a.contains(k) <==> b.contains(k),
    ensures
        a.len() == b.len(),
{
    a.unique_seq_to_set();
    b.unique_seq_to_set();
    assert forall|k: Text| a.to_set().contains(k) == b.to_set().contains(k) by {
        assert(a.contains(k) == b.contains(k));
    }
    assert(a.to_set() =~= b.to_set());
}

/// A dump has every policy and every backend of the store, once each and in the order of their
/// keys, and the routes of every service and of every group.
pub proof fn dumps_have_everything_else(d: Dump, s: StoreView, k: Text, n: NamespacedHostnameView)
    requires
        s.inv(),
        dumped(d, s),
    ensures
        d.policies@.len() == s.policy_order.len(),
        s.policies.contains_key(k) ==> d.policies@.contains(s.policies[k]),
        s.backends.contains_key(k) ==> d.backends@.contains(s.backends[k]),
        s.http_routes.contains_key(RouteTargetView::Service(n).id()) ==> exists|i: int|
            0 <= i < d.routes.http_mesh@.len() && (#[trigger] d.routes.http_mesh@[i]).0@ == n
                && (*d.routes.http_mesh@[i].1)@ == s.http_routes[RouteTargetView::Service(n).id()],
        s.tcp_routes.contains_key(RouteTargetView::Service(n).id()) ==> exists|i: int|
            0 <= i < d.routes.tcp_mesh@.len() && (#[trigger] d.routes.tcp_mesh@[i]).0@ == n
                && (*d.routes.tcp_mesh@[i].1)@ == s.tcp_routes[RouteTargetView::Service(n).id()],
        s.http_routes.contains_key(RouteTargetView::RouteGroup(k).id()) ==> exists|i: int|
            0 <= i < d.routes.route_groups@.len() && (#[trigger] d.routes.route_groups@[i]).0@ == k
                && (*d.routes.route_groups@[i].1)@ == s.http_routes[
            RouteTargetView::RouteGroup(k).id()],
{
    let order = choose|order: Seq<Text>| #[trigger]
        in_order(order, s.policy_order) && d.policies@ == order.map_values(
            |k: Text| s.policies[k],
        );
    lemma_same_length(order, s.policy_order);
    if s.policies.contains_key(k) {
        assert(s.policy_order.contains(k));
        assert(order.contains(k));
        let i = order.index_of(k);
        assert(d.policies@[i] == s.policies[k]);
    }
    let keys = choose|order: Seq<Text>| #[trigger]
        backends_in_order(order, s) && d.backends@ == order.map_values(|k: Text| s.backends[k]);
    if s.backends.contains_key(k) {
        assert(keys.contains(k));
        let i = keys.index_of(k);
        assert(d.backends@[i] == s.backends[k]);
    }
    if s.http_routes.contains_key(service_routes_id(n)) {
        let i = choose|i: int|
            0 <= i < d.routes.http_mesh@.len() && (#[trigger] d.routes.http_mesh@[i]).0@ == n;
        assert(d.routes.http_mesh@[i].0@ == n);
    }
    if s.tcp_routes.contains_key(service_routes_id(n)) {
        let i = choose|i: int|
            0 <= i < d.routes.tcp_mesh@.len() && (#[trigger] d.routes.tcp_mesh@[i]).0@ == n;
        assert(d.routes.tcp_mesh@[i].0@ == n);
    }
    if s.http_routes.contains_key(group_routes_id(k)) {
        let i = choose|i: int|
            0 <= i < d.routes.route_groups@.len() && (#[trigger] d.routes.route_groups@[i]).0@ == k;
        assert(d.routes.route_groups@[i].0@ == k);
    }
}

/// The access logs of a listener are sent where its frontend policies say, those of its port
/// included; a policy is in use exactly if the access logs of some listener of some bind are sent
/// there.
pub proof fn access_logs_in_use_are_those_of_listeners(
    s: StoreView,
    bind: Text,
    listener: Text,
    p: Arc<AccessLogPolicy>,
)
    ensures
        used_at(s, bind, listener, p) <==> s.binds.contains_key(bind)
            && s.binds[bind].listeners.contains_key(listener) && FrontendPolicesView::of(
            s.listener_frontend_rules(
                s.binds[bind].listeners[listener].name,
                Some(s.binds[bind].address.port_of()),
                None,
            ),
        ).access_log_otlp == Some(p),
        used_at(s, bind, listener, p) ==> in_use(s, p),
        in_use(s, p) ==> exists|b: Text, l: Text| #[trigger] used_at(s, b, l, p),
{
}

/// Policies of a call of a backend are empty exactly if none of them is set.
pub proof fn empty_backend_policies_set_nothing(p: BackendPolicies)
    ensures
        p.is_empty() <==> {
            &&& p.backend_tls is None && p.backend_auth is None && p.a2a is None
            &&& p.llm_provider is None && p.llm is None && p.inference_routing is None
            &&& p.ext_authz.policy is None && p.mcp_authorization is None
            &&& p.mcp_authentication is None && p.ext_mcp is None && p.http is None
            &&& p.tcp is None && p.tunnel is None && p.request_header_modifier is None
            &&& p.response_header_modifier.policy is None && p.request_redirect is None
            &&& p.request_mirror@.len() == 0 && p.transformation.policy is None
            &&& p.session_persistence is None && p.health is None && p.override_dest is None
        },
        p.is_empty() ==> forall|q: BackendPolicies|
            q.request_mirror@.len() > 0 ==> #[trigger] merged(p, q) == q,
{
}

// ---------------------------------------------------------------------------------------------
// What is seen of requests and answers
// ---------------------------------------------------------------------------------------------

/// What is seen of an owner of routes, of a resource and of an event is what they hold.
pub proof fn events_are_seen_as_they_are(
    target: RouteTarget,
    kind: ResourceKind,
    sockets: BindListeners,
    event: BindEvent,
    rejected: RejectedConfig,
)
    ensures
        match target {
            RouteTarget::Listener(k) => target@ == RouteTargetView::Listener(k@),
            RouteTarget::Service(n) => target@ == RouteTargetView::Service(n@),
            RouteTarget::RouteGroup(k) => target@ == RouteTargetView::RouteGroup(k@),
        },
        match kind {
            ResourceKind::Policy(k) => kind@ == ResourceKindView::Policy(k@),
            ResourceKind::Bind(k) => kind@ == ResourceKindView::Bind(k@),
            ResourceKind::Route(k) => kind@ == ResourceKindView::Route(k@),
            ResourceKind::TcpRoute(k) => kind@ == ResourceKindView::TcpRoute(k@),
            ResourceKind::Listener(k) => kind@ == ResourceKindView::Listener(k@),
            ResourceKind::Backend(k) => kind@ == ResourceKindView::Backend(k@),
        },
        match sockets {
            BindListeners::Single(a) => sockets@ == BindListenersView::Single(a),
            BindListeners::PerCore(a, cores) => sockets@ == BindListenersView::PerCore(a, cores@),
        },
        match event {
            BindEvent::Add(b, l) => event@ == BindEventView::Add((*b)@, l@),
            BindEvent::Remove(k) => event@ == BindEventView::Remove(k@),
        },
        rejected@.name == rejected.name@,
        rejected@.message == rejected.message@,
        rejected@.warning == rejected.warning,
{
}

/// What is seen of the path of a request is the listener, the service and the routes that it took,
/// in order.
pub proof fn paths_are_seen_as_they_are(path: RoutePath<'_>, i: int)
    ensures
        path@.listener == (*path.listener)@,
        path@.service == (match path.service {
            Some(n) => Some((*n)@),
            None => None,
        }),
        path@.routes.len() == path.routes@.len(),
        0 <= i < path.routes@.len() ==> path@.routes[i] == (*path.routes@[i])@,
{
}

/// What is seen of the policies of a connection is what they hold.
pub proof fn connection_policies_are_seen_as_they_are(p: FrontendPolices)
    ensures
        p@.http == p.http,
        p@.tls == p.tls,
        p@.tcp == p.tcp,
        p@.network_authorization == (match p.network_authorization {
            Some(a) => Some(a.rule_sets@),
            None => None,
        }),
        p@.proxy == p.proxy,
        p@.access_log == p.access_log,
        p@.tracing == p.tracing,
        p@.access_log_otlp == p.access_log_otlp,
        p@.metrics_fields == p.metrics_fields,
{
}

} // verus!
