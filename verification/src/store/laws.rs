//! Laws of the store as a whole.

use std::sync::Arc;

use vstd::prelude::*;

use crate::keyed::{lemma_without, without};
use crate::store::model::{
    before_routing, distinct, gather, insert_policy_keeps_inv, keys_at, lemma_gather_concat,
    listeners_changed, on_backends, on_frontends, on_routes, remove_policy_keeps_inv,
    reversed_concat, RoutePathView, RouteTargetView, StoreView,
};
use crate::store::policies::FrontendPolicesView;
use crate::store::selection::{
    backend_effective, earlier_backend_rules_take_precedence, earlier_rules_take_precedence,
    effective, BackendKind, TrafficKind,
};
use crate::target_table::TargetId;
use crate::text::Text;
use crate::types::agent::{
    gateway_id, listener_set_id, route_id, BindView, ListenerNameView, ListenerTargetView,
    ListenerView, PolicyTargetView, ResourceNameView, Route, RouteNameView, TargetedPolicy,
};
use crate::types::frontend::FrontendPolicy;
use crate::types::policy::{first_of, RuleSet};
use crate::types::traffic::{BackendTrafficPolicy, PolicyType, TrafficPolicy};

verus! {

// ---------------------------------------------------------------------------------------------
// Binds and listeners
// ---------------------------------------------------------------------------------------------

/// A listener may come before its bind or after it: the bind ends up the same.
pub proof fn listener_may_come_first(s: StoreView, bind: BindView, listener: ListenerView)
    requires
        s.inv(),
        !s.binds.contains_key(bind.key),
    ensures
        s.insert_listener(listener, bind.key).insert_bind(bind).binds == s.insert_bind(
            bind,
        ).insert_listener(listener, bind.key).binds,
        s.insert_listener(listener, bind.key).insert_bind(
            bind,
        ).binds[bind.key].listeners[listener.key] == listener,
{
    let k = bind.key;
    let early = s.insert_listener(listener, k).insert_bind(bind);
    let late = s.insert_bind(bind).insert_listener(listener, k);
    let mid = s.insert_bind(bind);
    assert(!mid.pending.contains_key(k));
    assert(early.binds[k].listeners =~= bind.listeners.union_prefer_right(
        s.waiting(k).insert(listener.key, listener),
    ));
    assert(late.binds[k].listeners =~= bind.listeners.union_prefer_right(s.waiting(k)).insert(
        listener.key,
        listener,
    ));
    assert(early.binds[k].listeners =~= late.binds[k].listeners);
    assert(early.binds =~= late.binds);
}

/// Putting a bind in place again as it is tells nobody of a change.
pub proof fn same_bind_is_no_change(s: StoreView, key: Text)
    requires
        s.inv(),
        s.binds.contains_key(key),
    ensures
        s.insert_bind(s.binds[key]).epoch == s.epoch,
        s.insert_bind(s.binds[key]).events == s.events,
        s.insert_bind(s.binds[key]).binds == s.binds,
{
    let b = s.binds[key];
    assert(!s.pending.contains_key(key));
    assert(b.listeners.union_prefer_right(Map::empty()) =~= b.listeners);
    assert(s.insert_bind(b).binds =~= s.binds);
}

/// A listener that is added to a bind is no change of those that are served; one that is taken off
/// is.
pub proof fn only_served_listeners_count(old_set: Map<Text, ListenerView>, l: ListenerView)
    ensures
        !old_set.contains_key(l.key) ==> !listeners_changed(old_set, old_set.insert(l.key, l)),
        old_set.contains_key(l.key) ==> listeners_changed(old_set, old_set.remove(l.key)),
{
    if old_set.contains_key(l.key) {
        assert(!old_set.remove(l.key).contains_key(l.key));
    }
}

// ---------------------------------------------------------------------------------------------
// Policies
// ---------------------------------------------------------------------------------------------

/// A policy that is attached is listed under its target and under no other, whatever it was
/// attached to before.
pub proof fn attached_policy_is_listed(s: StoreView, pol: TargetedPolicy, id: TargetId)
    requires
        s.inv(),
    ensures
        s.insert_policy(pol).policies[pol.key@] == Arc::new(pol),
        keys_at(s.insert_policy(pol).by_target, id).contains(pol.key@) <==> id == pol.target@.id(),
{
    insert_policy_keeps_inv(s, pol);
    let t = s.insert_policy(pol);
    assert(t.policies.contains_key(pol.key@));
}

/// A policy that is detached is listed nowhere, and the others are listed as before.
pub proof fn detached_policy_is_gone(s: StoreView, key: Text, id: TargetId, other: Text)
    requires
        s.inv(),
        other != key,
    ensures
        !s.remove_policy(key).policies.contains_key(key),
        !keys_at(s.remove_policy(key).by_target, id).contains(key),
        keys_at(s.remove_policy(key).by_target, id).contains(other) <==> keys_at(
            s.by_target,
            id,
        ).contains(other),
{
    remove_policy_keeps_inv(s, key);
    let t = s.remove_policy(key);
    if s.policies.contains_key(key) {
        let own = s.policies[key].target@.id();
        assert(keys_at(s.by_target, own).contains(key));
        assert(s.by_target.contains_key(own));
        lemma_without(s.by_target[own], key);
        if id == own {
            assert(keys_at(t.by_target, id) == without(s.by_target[own], key));
        }
    }
    if keys_at(t.by_target, id).contains(key) {
        assert(t.policies.contains_key(key));
    }
}

// ---------------------------------------------------------------------------------------------
// Routes
// ---------------------------------------------------------------------------------------------

/// A route that is put under a target is found there.
pub proof fn inserted_route_is_found(s: StoreView, target: RouteTargetView, route: Route)
    ensures
        s.insert_http_route(target, route).http_routes.contains_key(target.id()),
        s.insert_http_route(target, route).http_routes[target.id()][route.key@] == Arc::new(route),
{
}

/// A route that is taken out is found nowhere, and the other routes are found as before.
pub proof fn removed_route_is_gone(s: StoreView, key: Text, id: TargetId, other: Text)
    requires
        s.inv(),
        other != key,
    ensures
        s.remove_route(key).http_routes.contains_key(id) ==> !s.remove_route(
            key,
        ).http_routes[id].contains_key(key),
        s.http_routes.contains_key(id) && s.http_routes[id].contains_key(other) ==> s.remove_route(
            key,
        ).http_routes.contains_key(id) && s.remove_route(key).http_routes[id].contains_key(other)
            && s.remove_route(key).http_routes[id][other] == s.http_routes[id][other],
{
    if s.http_routes.contains_key(id) && s.http_routes[id].contains_key(other) {
        assert(s.http_routes[id].remove(key).contains_key(other));
        assert(s.http_routes[id].remove(key) != Map::<Text, Arc<Route>>::empty());
    }
}

// ---------------------------------------------------------------------------------------------
// Precedence
// ---------------------------------------------------------------------------------------------

/// What takes effect among the rules of the route that a request reached takes effect for the
/// request: the routes before it, the service, the listener and the gateway only fill what it
/// leaves open.
pub proof fn last_route_takes_precedence(
    s: StoreView,
    path: RoutePathView,
    inline: Seq<Seq<TrafficPolicy>>,
    kind: TrafficKind,
)
    requires
        path.routes.len() > 0,
    ensures
        ({
            let n = path.routes.len() - 1;
            let own = s.route_level(
                path.routes[n],
                if n < inline.len() {
                    inline[n]
                } else {
                    Seq::empty()
                },
            );
            effective(own, kind) is Some ==> effective(s.route_rules(path, inline), kind)
                == effective(own, kind)
        }),
{
    let n = path.routes.len() - 1;
    let own = s.route_level(
        path.routes[n],
        if n < inline.len() {
            inline[n]
        } else {
            Seq::empty()
        },
    );
    lemma_levels_start(s, path.routes, inline, 0, kind);
    let levels = s.route_levels(path.routes, inline, 0);
    let rest = gather(
        s.policies,
        s.attached_to_service(path.service) + s.attached_to_listener(path.listener)
            + s.attached_to_gateway(path.listener),
        on_routes(),
    );
    earlier_rules_take_precedence(levels, rest, kind);
}

/// The rules of the last route come first among those of the routes from `i` on.
proof fn lemma_levels_start(
    s: StoreView,
    routes: Seq<RouteNameView>,
    inline: Seq<Seq<TrafficPolicy>>,
    i: int,
    kind: TrafficKind,
)
    requires
        0 <= i < routes.len(),
    ensures
        ({
            let n = routes.len() - 1;
            let own = s.route_level(
                routes[n],
                if n < inline.len() {
                    inline[n]
                } else {
                    Seq::empty()
                },
            );
            effective(own, kind) is Some ==> effective(s.route_levels(routes, inline, i), kind)
                == effective(own, kind)
        }),
    decreases routes.len() - i,
{
    let n = routes.len() - 1;
    let level = s.route_level(
        routes[i],
        if i < inline.len() {
            inline[i]
        } else {
            Seq::empty()
        },
    );
    earlier_rules_take_precedence(s.route_levels(routes, inline, i + 1), level, kind);
    if i < n {
        lemma_levels_start(s, routes, inline, i + 1, kind);
    } else {
        assert(s.route_levels(routes, inline, i + 1) =~= Seq::<TrafficPolicy>::empty());
    }
}

proof fn lemma_effective_at(
    s: StoreView,
    a: Seq<Text>,
    b: Seq<Text>,
    pick: spec_fn(PolicyType) -> Option<TrafficPolicy>,
    kind: TrafficKind,
)
    ensures
        effective(gather(s.policies, a + b, pick), kind) == first_of(
            effective(gather(s.policies, a, pick), kind),
            effective(gather(s.policies, b, pick), kind),
        ),
{
    lemma_gather_concat(s.policies, a, b, pick);
    earlier_rules_take_precedence(
        gather(s.policies, a, pick),
        gather(s.policies, b, pick),
        kind,
    );
}

/// What takes effect for a request on its route: what does among the rules of the routes, else of
/// the service, else of the listener, else of the gateway.
pub proof fn route_levels_take_precedence(
    s: StoreView,
    path: RoutePathView,
    inline: Seq<Seq<TrafficPolicy>>,
    kind: TrafficKind,
)
    ensures
        ({
            let at = |keys: Seq<Text>| effective(gather(s.policies, keys, on_routes()), kind);
            effective(s.route_rules(path, inline), kind) == first_of(
                effective(s.route_levels(path.routes, inline, 0), kind),
                first_of(
                    first_of(
                        at(s.attached_to_service(path.service)),
                        at(s.attached_to_listener(path.listener)),
                    ),
                    at(s.attached_to_gateway(path.listener)),
                ),
            )
        }),
{
    let k1 = s.attached_to_service(path.service);
    let k2 = s.attached_to_listener(path.listener);
    let k3 = s.attached_to_gateway(path.listener);
    lemma_effective_at(s, k1, k2, on_routes(), kind);
    lemma_effective_at(s, k1 + k2, k3, on_routes(), kind);
    earlier_rules_take_precedence(
        s.route_levels(path.routes, inline, 0),
        gather(s.policies, k1 + k2 + k3, on_routes()),
        kind,
    );
}

/// What takes effect for a request before a route is chosen: what does among the rules of the
/// listener, else of its section of the listener set, else of the listener set, else of the
/// gateway.
pub proof fn gateway_levels_take_precedence(
    s: StoreView,
    name: ListenerNameView,
    kind: TrafficKind,
)
    ensures
        ({
            let at = |keys: Seq<Text>| effective(gather(s.policies, keys, before_routing()), kind);
            effective(s.gateway_rules(name), kind) == first_of(
                first_of(
                    first_of(
                        at(s.attached_to_listener(name)),
                        at(s.attached_to_listener_set(name, true)),
                    ),
                    at(s.attached_to_listener_set(name, false)),
                ),
                at(s.attached_to_gateway(name)),
            )
        }),
{
    let k1 = s.attached_to_listener(name);
    let k2 = s.attached_to_listener_set(name, true);
    let k3 = s.attached_to_listener_set(name, false);
    let k4 = s.attached_to_gateway(name);
    lemma_effective_at(s, k1, k2, before_routing(), kind);
    lemma_effective_at(s, k1 + k2, k3, before_routing(), kind);
    lemma_effective_at(s, k1 + k2 + k3, k4, before_routing(), kind);
}

/// Inline rules of a backend take precedence over every attached one, and among the inline lists
/// the last takes precedence.
pub proof fn inline_backend_rules_take_precedence(
    s: StoreView,
    backend: Option<PolicyTargetView>,
    sub_backend: Option<PolicyTargetView>,
    inline: Seq<Seq<BackendTrafficPolicy>>,
    listener: Option<ListenerNameView>,
    routes: Seq<RouteNameView>,
    kind: BackendKind,
)
    requires
        inline.len() > 0,
        backend_effective(inline.last(), kind) is Some,
    ensures
        backend_effective(
            s.backend_rules(backend, sub_backend, inline, listener, routes),
            kind,
        ) == backend_effective(inline.last(), kind),
{
    lemma_inline_start(inline, 0, kind);
    let all = s.backend_rules(backend, sub_backend, inline, listener, routes);
    let attached = all.skip(reversed_concat(inline, 0).len() as int);
    assert(all =~= reversed_concat(inline, 0) + attached);
    earlier_backend_rules_take_precedence(reversed_concat(inline, 0), attached, kind);
}

proof fn lemma_inline_start(inline: Seq<Seq<BackendTrafficPolicy>>, i: int, kind: BackendKind)
    requires
        0 <= i < inline.len(),
        backend_effective(inline.last(), kind) is Some,
    ensures
        backend_effective(reversed_concat(inline, i), kind) == backend_effective(
            inline.last(),
            kind,
        ),
    decreases inline.len() - i,
{
    earlier_backend_rules_take_precedence(reversed_concat(inline, i + 1), inline[i], kind);
    if i < inline.len() - 1 {
        lemma_inline_start(inline, i + 1, kind);
    } else {
        assert(reversed_concat(inline, i + 1) =~= Seq::<BackendTrafficPolicy>::empty());
    }
}

/// What takes effect among the backend policies behind keys.
pub open spec fn backend_effect_at(s: StoreView, keys: Seq<Text>, kind: BackendKind) -> Option<
    BackendTrafficPolicy,
> {
    backend_effective(gather(s.policies, keys, on_backends()), kind)
}

proof fn lemma_backend_effect_at(s: StoreView, a: Seq<Text>, b: Seq<Text>, kind: BackendKind)
    ensures
        backend_effect_at(s, a + b, kind) == first_of(
            backend_effect_at(s, a, kind),
            backend_effect_at(s, b, kind),
        ),
{
    lemma_gather_concat(s.policies, a, b, on_backends());
    earlier_backend_rules_take_precedence(
        gather(s.policies, a, on_backends()),
        gather(s.policies, b, on_backends()),
        kind,
    );
}

/// A policy that takes effect by itself leaves nothing open for those behind it.
proof fn lemma_listed_takes_effect(s: StoreView, keys: Seq<Text>, k: Text, kind: BackendKind)
    requires
        keys.contains(k),
        backend_effect_at(s, seq![k], kind) is Some,
    ensures
        backend_effect_at(s, keys, kind) is Some,
    decreases keys.len(),
{
    let rest = keys.drop_last();
    let last = seq![keys.last()];
    assert(keys =~= rest + last);
    lemma_backend_effect_at(s, rest, last, kind);
    if keys.last() != k {
        let i = keys.index_of(k);
        assert(rest[i] == k);
        lemma_listed_takes_effect(s, rest, k, kind);
    }
}

/// What takes effect does not depend on policies that are listed again.
proof fn lemma_distinct_effect(s: StoreView, keys: Seq<Text>, kind: BackendKind)
    ensures
        backend_effect_at(s, distinct(keys), kind) == backend_effect_at(s, keys, kind),
    decreases keys.len(),
{
    if keys.len() > 0 {
        let rest = keys.drop_last();
        let k = keys.last();
        lemma_distinct_effect(s, rest, kind);
        assert(keys =~= rest + seq![k]);
        lemma_backend_effect_at(s, rest, seq![k], kind);
        if distinct(rest).contains(k) {
            if backend_effect_at(s, seq![k], kind) is Some {
                lemma_listed_takes_effect(s, distinct(rest), k, kind);
            }
        } else {
            assert(distinct(keys) =~= distinct(rest) + seq![k]);
            lemma_backend_effect_at(s, distinct(rest), seq![k], kind);
        }
    }
}

/// What takes effect for a call of a backend: what does among the inline rules, else among those of
/// the routes, else of the section of the backend, else of the backend, else of the listener, else
/// of the gateway.
pub proof fn backend_levels_take_precedence(
    s: StoreView,
    backend: Option<PolicyTargetView>,
    sub_backend: Option<PolicyTargetView>,
    inline: Seq<Seq<BackendTrafficPolicy>>,
    listener: Option<ListenerNameView>,
    routes: Seq<RouteNameView>,
    kind: BackendKind,
)
    ensures
        backend_effective(
            s.backend_rules(backend, sub_backend, inline, listener, routes),
            kind,
        ) == first_of(
            backend_effective(reversed_concat(inline, 0), kind),
            first_of(
                first_of(
                    first_of(
                        backend_effect_at(s, s.route_keys(routes, 0), kind),
                        backend_effect_at(s, s.attached_to_backend(sub_backend), kind),
                    ),
                    backend_effect_at(s, s.attached_to_backend(backend), kind),
                ),
                match listener {
                    Some(l) => first_of(
                        backend_effect_at(s, s.attached_to_listener(l), kind),
                        backend_effect_at(s, s.attached_to_gateway(l), kind),
                    ),
                    None => None,
                },
            ),
        ),
{
    let k1 = s.route_keys(routes, 0);
    let k2 = s.attached_to_backend(sub_backend);
    let k3 = s.attached_to_backend(backend);
    let k4 = match listener {
        Some(l) => s.attached_to_listener(l) + s.attached_to_gateway(l),
        None => Seq::empty(),
    };
    match listener {
        Some(l) => {
            lemma_backend_effect_at(s, s.attached_to_listener(l), s.attached_to_gateway(l), kind);
        },
        None => {},
    }
    lemma_backend_effect_at(s, k1, k2, kind);
    lemma_backend_effect_at(s, k1 + k2, k3, kind);
    lemma_backend_effect_at(s, k1 + k2 + k3, k4, kind);
    lemma_distinct_effect(s, k1 + k2 + k3 + k4, kind);
    earlier_backend_rules_take_precedence(
        reversed_concat(inline, 0),
        gather(s.policies, distinct(k1 + k2 + k3 + k4), on_backends()),
        kind,
    );
}

/// Network authorization of two levels: the rule sets of both.
pub open spec fn joined(
    a: Option<Seq<Arc<RuleSet>>>,
    b: Option<Seq<Arc<RuleSet>>>,
) -> Option<Seq<Arc<RuleSet>>> {
    match (a, b) {
        (Some(x), Some(y)) => Some(x + y),
        (Some(x), None) => Some(x),
        (None, y) => y,
    }
}

/// Frontend policies of two levels: those in front take precedence field by field, those behind
/// fill what is left open. Network authorization of both counts.
pub open spec fn over(a: FrontendPolicesView, b: FrontendPolicesView) -> FrontendPolicesView {
    FrontendPolicesView {
        http: first_of(a.http, b.http),
        tls: first_of(a.tls, b.tls),
        tcp: first_of(a.tcp, b.tcp),
        network_authorization: joined(a.network_authorization, b.network_authorization),
        proxy: first_of(a.proxy, b.proxy),
        access_log: first_of(a.access_log, b.access_log),
        tracing: first_of(a.tracing, b.tracing),
        access_log_otlp: first_of(a.access_log_otlp, b.access_log_otlp),
        metrics_fields: first_of(a.metrics_fields, b.metrics_fields),
    }
}

/// Frontend rules that are put in front take precedence field by field; those behind fill what is
/// left open. Network authorization of both counts.
pub proof fn earlier_frontend_rules_take_precedence(
    first: Seq<FrontendPolicy>,
    second: Seq<FrontendPolicy>,
)
    ensures
        FrontendPolicesView::of(first + second) == over(
            FrontendPolicesView::of(first),
            FrontendPolicesView::of(second),
        ),
    decreases second.len(),
{
    let a = FrontendPolicesView::of(first);
    if second.len() == 0 {
        assert(first + second =~= first);
        assert(joined(a.network_authorization, None) =~= a.network_authorization);
    } else {
        assert((first + second).drop_last() =~= first + second.drop_last());
        earlier_frontend_rules_take_precedence(first, second.drop_last());
        let before = FrontendPolicesView::of(second.drop_last());
        match second.last() {
            FrontendPolicy::NetworkAuthorization(p) => {
                match (a.network_authorization, before.network_authorization) {
                    (Some(x), Some(y)) => {
                        assert((x + y).push(p) =~= x + y.push(p));
                    },
                    (Some(x), None) => {
                        assert(x.push(p) =~= x + seq![p]);
                    },
                    _ => {},
                }
            },
            _ => {},
        }
    }
}

/// The frontend policies behind keys.
pub open spec fn frontends_at(s: StoreView, keys: Seq<Text>) -> FrontendPolicesView {
    FrontendPolicesView::of(gather(s.policies, keys, on_frontends()))
}

proof fn lemma_frontends_at(s: StoreView, a: Seq<Text>, b: Seq<Text>)
    ensures
        frontends_at(s, a + b) == over(frontends_at(s, a), frontends_at(s, b)),
{
    lemma_gather_concat(s.policies, a, b, on_frontends());
    earlier_frontend_rules_take_precedence(
        gather(s.policies, a, on_frontends()),
        gather(s.policies, b, on_frontends()),
    );
}

/// The policies of a connection: those of the service take precedence over those of the listener,
/// these over those of its section of the listener set, of the listener set, of the port, and of
/// the gateway, in that order.
pub proof fn frontend_levels_take_precedence(
    s: StoreView,
    name: ListenerNameView,
    port: Option<u16>,
    service: Option<PolicyTargetView>,
)
    ensures
        FrontendPolicesView::of(s.listener_frontend_rules(name, port, service)) == over(
            over(
                over(
                    over(
                        over(
                            frontends_at(s, s.attached_to_backend(service)),
                            frontends_at(s, s.attached_to_listener(name)),
                        ),
                        frontends_at(s, s.attached_to_listener_set(name, true)),
                    ),
                    frontends_at(s, s.attached_to_listener_set(name, false)),
                ),
                frontends_at(
                    s,
                    match port {
                        Some(p) => s.attached(gateway_id(name, None, Some(p))),
                        None => Seq::empty(),
                    },
                ),
            ),
            frontends_at(s, s.attached_to_gateway(name)),
        ),
{
    let k1 = s.attached_to_backend(service);
    let k2 = s.attached_to_listener(name);
    let k3 = s.attached_to_listener_set(name, true);
    let k4 = s.attached_to_listener_set(name, false);
    let k5 = match port {
        Some(p) => s.attached(gateway_id(name, None, Some(p))),
        None => Seq::empty(),
    };
    let k6 = s.attached_to_gateway(name);
    lemma_frontends_at(s, k1, k2);
    lemma_frontends_at(s, k1 + k2, k3);
    lemma_frontends_at(s, k1 + k2 + k3, k4);
    lemma_frontends_at(s, k1 + k2 + k3 + k4, k5);
    lemma_frontends_at(s, k1 + k2 + k3 + k4 + k5, k6);
}

/// A port of a gateway that has no policies of its own is served as the gateway is.
pub proof fn port_inherits_gateway(s: StoreView, t: ListenerTargetView)
    requires
        t.listener_name is None,
        t.port is Some,
        s.attached(PolicyTargetView::Gateway(t).id()) == Seq::<Text>::empty(),
    ensures
        s.frontend_rules(PolicyTargetView::Gateway(t)) == s.frontend_rules(
            PolicyTargetView::Gateway(ListenerTargetView { port: None, ..t }),
        ),
{
    let gateway = PolicyTargetView::Gateway(ListenerTargetView { port: None, ..t });
    let keys = s.attached(gateway.id());
    assert(Seq::<Text>::empty() + keys =~= keys);
    assert(keys + Seq::<Text>::empty() =~= keys);
}

/// A policy of a route of one kind is not found for a route of another kind, though it has the
/// same name.
pub proof fn route_policies_are_scoped_by_kind(a: RouteNameView, b: RouteNameView, rule: bool)
    requires
        a.kind != b.kind,
    ensures
        route_id(a, true) != route_id(b, rule),
        route_id(a, false) != route_id(b, rule),
{
}

/// A policy of a section of a listener set is found for the listener of that name alone.
pub proof fn listener_set_sections_are_apart(set: ResourceNameView, a: Text, b: Text)
    ensures
        listener_set_id(set, Some(a)) == listener_set_id(set, Some(b)) ==> a == b,
        listener_set_id(set, Some(a)) != listener_set_id(set, None),
{
}

} // verus!
