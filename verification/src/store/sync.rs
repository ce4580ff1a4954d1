//! Laws of the synchronization with a local configuration.

use std::sync::Arc;

use vstd::prelude::*;

use crate::keyed::{added, lemma_added, lemma_without, without};
use crate::store::model::{
    insert_policy_keeps_inv, keys_at, lemma_with_route, lemma_without_route, owns_routes,
    remove_policy_keeps_inv, route_target_identity_is_injective, routes_ok, with_route,
    without_route, RouteTargetView, StoreView,
};
use crate::store::updater::{
    all_distinct, all_route_texts, backend_texts, bind_texts, lemma_distinct, lemma_last_or_rest,
    lemma_minus, local_keys, minus, policy_texts, route_texts, stale_keys, PreviousStateView,
};
use crate::target_table::TargetId;
use crate::text::Text;
use crate::types::agent::{
    BackendWithPolicies, BindView, Keyed, ListenerKey, Route, RouteGroupKey, TCPRoute,
    TargetedPolicy,
};
use crate::types::policy::first_of;

verus! {

// ---------------------------------------------------------------------------------------------
// What is found
// ---------------------------------------------------------------------------------------------

/// What a map holds under a key, if anything.
pub open spec fn found<V>(m: Map<Text, V>, k: Text) -> Option<V> {
    if m.contains_key(k) {
        Some(m[k])
    } else {
        None
    }
}

/// The route with the key under a target, if it is there.
pub open spec fn route_at<R>(
    routes: Map<TargetId, Map<Text, Arc<R>>>,
    target: RouteTargetView,
    k: Text,
) -> Option<Arc<R>> {
    if routes.contains_key(target.id()) {
        found(routes[target.id()], k)
    } else {
        None
    }
}

/// The last of the routes with the key, if there is one.
pub open spec fn last_keyed<R: Keyed>(routes: Seq<R>, k: Text) -> Option<Arc<R>>
    decreases routes.len(),
{
    if routes.len() == 0 {
        None
    } else if routes.last().key_text() == k {
        Some(Arc::new(routes.last()))
    } else {
        last_keyed(routes.drop_last(), k)
    }
}

/// The last of the routes with the key that is listed under an owner, if there is one.
pub open spec fn last_under<R: Keyed>(
    entries: Seq<(String, Vec<R>)>,
    owner: Text,
    k: Text,
) -> Option<Arc<R>>
    decreases entries.len(),
{
    if entries.len() == 0 {
        None
    } else {
        first_of(
            if entries.last().0@ == owner {
                last_keyed(entries.last().1@, k)
            } else {
                None
            },
            last_under(entries.drop_last(), owner, k),
        )
    }
}

/// The route with the key that a configuration lists for a listener, if the target is one and there
/// is such a route.
pub open spec fn listener_route<R: Keyed>(
    entries: Seq<(ListenerKey, Vec<R>)>,
    target: RouteTargetView,
    k: Text,
) -> Option<Arc<R>> {
    match target {
        RouteTargetView::Listener(l) => last_under(entries, l, k),
        _ => None,
    }
}

/// The route with the key that a configuration lists for a group, if the target is one and there is
/// such a route.
pub open spec fn group_route(
    entries: Seq<(RouteGroupKey, Vec<Route>)>,
    target: RouteTargetView,
    k: Text,
) -> Option<Arc<Route>> {
    match target {
        RouteTargetView::RouteGroup(g) => last_under(entries, g, k),
        _ => None,
    }
}

/// Whether the target is one of the groups.
pub open spec fn is_group_of(target: RouteTargetView, groups: Seq<Text>) -> bool {
    target matches RouteTargetView::RouteGroup(g) && groups.contains(g)
}

// ---------------------------------------------------------------------------------------------
// Routes
// ---------------------------------------------------------------------------------------------

proof fn lemma_route_put<R: Keyed>(
    routes: Map<TargetId, Map<Text, Arc<R>>>,
    owner: RouteTargetView,
    route: R,
)
    ensures
        routes_ok(routes) ==> routes_ok(with_route(routes, owner.id(), route)),
        forall|target: RouteTargetView, k: Text| #[trigger]
            route_at(with_route(routes, owner.id(), route), target, k) == (if target == owner && k
                == route.key_text() {
                Some(Arc::new(route))
            } else {
                route_at(routes, target, k)
            }),
{
    if routes_ok(routes) {
        lemma_with_route(routes, owner, route);
    }
    assert forall|target: RouteTargetView, k: Text| #[trigger]
        route_at(with_route(routes, owner.id(), route), target, k) == (if target == owner && k
            == route.key_text() {
            Some(Arc::new(route))
        } else {
            route_at(routes, target, k)
        }) by {
        route_target_identity_is_injective(target, owner);
    }
}

proof fn lemma_route_dropped<R: Keyed>(routes: Map<TargetId, Map<Text, Arc<R>>>, key: Text)
    ensures
        routes_ok(routes) ==> routes_ok(without_route(routes, key)),
        forall|target: RouteTargetView, k: Text| #[trigger]
            route_at(without_route(routes, key), target, k) == (if k == key {
                None
            } else {
                route_at(routes, target, k)
            }),
{
    if routes_ok(routes) {
        lemma_without_route(routes, key);
    }
    assert forall|target: RouteTargetView, k: Text| #[trigger]
        route_at(without_route(routes, key), target, k) == (if k == key {
            None
        } else {
            route_at(routes, target, k)
        }) by {
        let id = target.id();
        if routes.contains_key(id) && routes[id].contains_key(k) && k != key {
            assert(routes[id].remove(key).contains_key(k));
            assert(routes[id].remove(key) != Map::<Text, Arc<R>>::empty());
        }
    }
}

/// Routes are the same where the same routes are found.
proof fn lemma_same_routes<R: Keyed>(
    a: Map<TargetId, Map<Text, Arc<R>>>,
    b: Map<TargetId, Map<Text, Arc<R>>>,
)
    requires
        routes_ok(a),
        routes_ok(b),
        forall|target: RouteTargetView, k: Text| #[trigger]
            route_at(a, target, k) == route_at(b, target, k),
    ensures
        a == b,
{
    lemma_owners_kept(a, b);
    lemma_owners_kept(b, a);
    assert forall|id: TargetId| #[trigger] a.contains_key(id) implies a[id] == b[id] by {
        assert(owns_routes(id));
        let target = choose|t: RouteTargetView| #[trigger] t.id() == id;
        assert(b.contains_key(id));
        assert forall|k: Text| a[id].contains_key(k) <==> #[trigger] b[id].contains_key(k) by {
            assert(route_at(a, target, k) == route_at(b, target, k));
        }
        assert forall|k: Text| #[trigger] a[id].contains_key(k) implies a[id][k] == b[id][k] by {
            assert(route_at(a, target, k) == route_at(b, target, k));
        }
        assert(a[id] =~= b[id]);
    }
    assert(a =~= b);
}

proof fn lemma_owners_kept<R: Keyed>(
    a: Map<TargetId, Map<Text, Arc<R>>>,
    b: Map<TargetId, Map<Text, Arc<R>>>,
)
    requires
        routes_ok(a),
        forall|target: RouteTargetView, k: Text| #[trigger]
            route_at(a, target, k) == route_at(b, target, k),
    ensures
        forall|id: TargetId| #[trigger] a.contains_key(id) ==> b.contains_key(id),
{
    assert forall|id: TargetId| #[trigger] a.contains_key(id) implies b.contains_key(id) by {
        assert(owns_routes(id));
        let target = choose|t: RouteTargetView| #[trigger] t.id() == id;
        if forall|k: Text| !a[id].contains_key(k) {
            assert(a[id] =~= Map::<Text, Arc<R>>::empty());
        }
        let k = choose|k: Text| a[id].contains_key(k);
        assert(route_at(a, target, k) == route_at(b, target, k));
    }
}

proof fn lemma_insert_routes(s: StoreView, owner: RouteTargetView, routes: Seq<Route>)
    ensures
        s.insert_routes(owner, routes) == (StoreView {
            http_routes: s.insert_routes(owner, routes).http_routes,
            ..s
        }),
        routes_ok(s.http_routes) ==> routes_ok(s.insert_routes(owner, routes).http_routes),
        forall|target: RouteTargetView, k: Text| #[trigger]
            route_at(s.insert_routes(owner, routes).http_routes, target, k) == (if target == owner {
                first_of(last_keyed(routes, k), route_at(s.http_routes, target, k))
            } else {
                route_at(s.http_routes, target, k)
            }),
    decreases routes.len(),
{
    if routes.len() > 0 {
        lemma_insert_routes(s, owner, routes.drop_last());
        lemma_route_put(
            s.insert_routes(owner, routes.drop_last()).http_routes,
            owner,
            routes.last(),
        );
    }
}

proof fn lemma_insert_tcp_routes(s: StoreView, owner: RouteTargetView, routes: Seq<TCPRoute>)
    ensures
        s.insert_tcp_routes(owner, routes) == (StoreView {
            tcp_routes: s.insert_tcp_routes(owner, routes).tcp_routes,
            ..s
        }),
        routes_ok(s.tcp_routes) ==> routes_ok(s.insert_tcp_routes(owner, routes).tcp_routes),
        forall|target: RouteTargetView, k: Text| #[trigger]
            route_at(s.insert_tcp_routes(owner, routes).tcp_routes, target, k) == (if target
                == owner {
                first_of(last_keyed(routes, k), route_at(s.tcp_routes, target, k))
            } else {
                route_at(s.tcp_routes, target, k)
            }),
    decreases routes.len(),
{
    if routes.len() > 0 {
        lemma_insert_tcp_routes(s, owner, routes.drop_last());
        lemma_route_put(
            s.insert_tcp_routes(owner, routes.drop_last()).tcp_routes,
            owner,
            routes.last(),
        );
    }
}

proof fn lemma_insert_listener_routes(s: StoreView, entries: Seq<(ListenerKey, Vec<Route>)>)
    ensures
        s.insert_listener_routes(entries) == (StoreView {
            http_routes: s.insert_listener_routes(entries).http_routes,
            ..s
        }),
        routes_ok(s.http_routes) ==> routes_ok(s.insert_listener_routes(entries).http_routes),
        forall|target: RouteTargetView, k: Text| #[trigger]
            route_at(s.insert_listener_routes(entries).http_routes, target, k) == first_of(
                listener_route(entries, target, k),
                route_at(s.http_routes, target, k),
            ),
    decreases entries.len(),
{
    if entries.len() > 0 {
        let rest = entries.drop_last();
        lemma_insert_listener_routes(s, rest);
        lemma_insert_routes(
            s.insert_listener_routes(rest),
            RouteTargetView::Listener(entries.last().0@),
            entries.last().1@,
        );
        assert forall|target: RouteTargetView, k: Text| #[trigger]
            route_at(s.insert_listener_routes(entries).http_routes, target, k) == first_of(
                listener_route(entries, target, k),
                route_at(s.http_routes, target, k),
            ) by {
            assert(route_at(s.insert_listener_routes(rest).http_routes, target, k) == first_of(
                listener_route(rest, target, k),
                route_at(s.http_routes, target, k),
            ));
        }
    }
}

proof fn lemma_insert_listener_tcp_routes(
    s: StoreView,
    entries: Seq<(ListenerKey, Vec<TCPRoute>)>,
)
    ensures
        s.insert_listener_tcp_routes(entries) == (StoreView {
            tcp_routes: s.insert_listener_tcp_routes(entries).tcp_routes,
            ..s
        }),
        routes_ok(s.tcp_routes) ==> routes_ok(s.insert_listener_tcp_routes(entries).tcp_routes),
        forall|target: RouteTargetView, k: Text| #[trigger]
            route_at(s.insert_listener_tcp_routes(entries).tcp_routes, target, k) == first_of(
                listener_route(entries, target, k),
                route_at(s.tcp_routes, target, k),
            ),
    decreases entries.len(),
{
    if entries.len() > 0 {
        let rest = entries.drop_last();
        lemma_insert_listener_tcp_routes(s, rest);
        lemma_insert_tcp_routes(
            s.insert_listener_tcp_routes(rest),
            RouteTargetView::Listener(entries.last().0@),
            entries.last().1@,
        );
        assert forall|target: RouteTargetView, k: Text| #[trigger]
            route_at(s.insert_listener_tcp_routes(entries).tcp_routes, target, k) == first_of(
                listener_route(entries, target, k),
                route_at(s.tcp_routes, target, k),
            ) by {
            assert(route_at(s.insert_listener_tcp_routes(rest).tcp_routes, target, k) == first_of(
                listener_route(rest, target, k),
                route_at(s.tcp_routes, target, k),
            ));
        }
    }
}

proof fn lemma_insert_route_groups(s: StoreView, entries: Seq<(RouteGroupKey, Vec<Route>)>)
    ensures
        s.insert_route_groups(entries) == (StoreView {
            http_routes: s.insert_route_groups(entries).http_routes,
            ..s
        }),
        routes_ok(s.http_routes) ==> routes_ok(s.insert_route_groups(entries).http_routes),
        forall|target: RouteTargetView, k: Text| #[trigger]
            route_at(s.insert_route_groups(entries).http_routes, target, k) == first_of(
                group_route(entries, target, k),
                route_at(s.http_routes, target, k),
            ),
    decreases entries.len(),
{
    if entries.len() > 0 {
        let rest = entries.drop_last();
        lemma_insert_route_groups(s, rest);
        lemma_insert_routes(
            s.insert_route_groups(rest),
            RouteTargetView::RouteGroup(entries.last().0@),
            entries.last().1@,
        );
        assert forall|target: RouteTargetView, k: Text| #[trigger]
            route_at(s.insert_route_groups(entries).http_routes, target, k) == first_of(
                group_route(entries, target, k),
                route_at(s.http_routes, target, k),
            ) by {
            assert(route_at(s.insert_route_groups(rest).http_routes, target, k) == first_of(
                group_route(rest, target, k),
                route_at(s.http_routes, target, k),
            ));
        }
    }
}

proof fn lemma_remove_routes(s: StoreView, keys: Seq<Text>)
    ensures
        s.remove_routes(keys) == (StoreView { http_routes: s.remove_routes(keys).http_routes, ..s }),
        routes_ok(s.http_routes) ==> routes_ok(s.remove_routes(keys).http_routes),
        forall|target: RouteTargetView, k: Text| #[trigger]
            route_at(s.remove_routes(keys).http_routes, target, k) == (if keys.contains(k) {
                None
            } else {
                route_at(s.http_routes, target, k)
            }),
    decreases keys.len(),
{
    if keys.len() > 0 {
        let rest = keys.drop_last();
        lemma_remove_routes(s, rest);
        lemma_route_dropped(s.remove_routes(rest).http_routes, keys.last());
        assert forall|target: RouteTargetView, k: Text| #[trigger]
            route_at(s.remove_routes(keys).http_routes, target, k) == (if keys.contains(k) {
                None
            } else {
                route_at(s.http_routes, target, k)
            }) by {
            lemma_last_or_rest(keys, k);
            assert(route_at(s.remove_routes(rest).http_routes, target, k) == (if rest.contains(k) {
                None
            } else {
                route_at(s.http_routes, target, k)
            }));
        }
    }
}

proof fn lemma_remove_tcp_routes(s: StoreView, keys: Seq<Text>)
    ensures
        s.remove_tcp_routes(keys) == (StoreView {
            tcp_routes: s.remove_tcp_routes(keys).tcp_routes,
            ..s
        }),
        routes_ok(s.tcp_routes) ==> routes_ok(s.remove_tcp_routes(keys).tcp_routes),
        forall|target: RouteTargetView, k: Text| #[trigger]
            route_at(s.remove_tcp_routes(keys).tcp_routes, target, k) == (if keys.contains(k) {
                None
            } else {
                route_at(s.tcp_routes, target, k)
            }),
    decreases keys.len(),
{
    if keys.len() > 0 {
        let rest = keys.drop_last();
        lemma_remove_tcp_routes(s, rest);
        lemma_route_dropped(s.remove_tcp_routes(rest).tcp_routes, keys.last());
        assert forall|target: RouteTargetView, k: Text| #[trigger]
            route_at(s.remove_tcp_routes(keys).tcp_routes, target, k) == (if keys.contains(k) {
                None
            } else {
                route_at(s.tcp_routes, target, k)
            }) by {
            lemma_last_or_rest(keys, k);
            assert(route_at(s.remove_tcp_routes(rest).tcp_routes, target, k) == (if rest.contains(
                k,
            ) {
                None
            } else {
                route_at(s.tcp_routes, target, k)
            }));
        }
    }
}

proof fn lemma_remove_route_groups(s: StoreView, groups: Seq<Text>)
    ensures
        s.remove_route_groups(groups) == (StoreView {
            http_routes: s.remove_route_groups(groups).http_routes,
            ..s
        }),
        routes_ok(s.http_routes) ==> routes_ok(s.remove_route_groups(groups).http_routes),
        forall|g: Text| #[trigger]
            groups.contains(g) ==> !s.remove_route_groups(groups).http_routes.contains_key(
                RouteTargetView::RouteGroup(g).id(),
            ),
        forall|target: RouteTargetView, k: Text| #[trigger]
            route_at(s.remove_route_groups(groups).http_routes, target, k) == (if is_group_of(
                target,
                groups,
            ) {
                None
            } else {
                route_at(s.http_routes, target, k)
            }),
    decreases groups.len(),
{
    if groups.len() > 0 {
        let rest = groups.drop_last();
        let last = RouteTargetView::RouteGroup(groups.last());
        lemma_remove_route_groups(s, rest);
        let before = s.remove_route_groups(rest).http_routes;
        let after = s.remove_route_groups(groups).http_routes;
        assert(after == before.remove(last.id()));
        if routes_ok(s.http_routes) {
            assert forall|id: TargetId| #[trigger] after.contains_key(id) implies before.contains_key(
                id,
            ) && after[id] == before[id] by {}
        }
        assert forall|g: Text| #[trigger] groups.contains(g) implies !after.contains_key(
            RouteTargetView::RouteGroup(g).id(),
        ) by {
            lemma_last_or_rest(groups, g);
        }
        assert forall|target: RouteTargetView, k: Text| #[trigger]
            route_at(after, target, k) == (if is_group_of(target, groups) {
                None
            } else {
                route_at(s.http_routes, target, k)
            }) by {
            route_target_identity_is_injective(target, last);
            assert(route_at(before, target, k) == (if is_group_of(target, rest) {
                None
            } else {
                route_at(s.http_routes, target, k)
            }));
            match target {
                RouteTargetView::RouteGroup(g) => lemma_last_or_rest(groups, g),
                _ => {},
            }
        }
    }
}

// ---------------------------------------------------------------------------------------------
// Binds, policies and backends
// ---------------------------------------------------------------------------------------------

proof fn lemma_insert_binds(s: StoreView, binds: Seq<BindView>)
    ensures
        ({
            let t = s.insert_binds(binds);
            &&& t == (StoreView {
                binds: t.binds,
                bind_order: t.bind_order,
                pending: t.pending,
                epoch: t.epoch,
                events: t.events,
                ..s
            })
            &&& forall|k: Text| #[trigger] bind_texts(binds).contains(k) ==> t.binds.contains_key(k)
            &&& forall|k: Text|
                !bind_texts(binds).contains(k) ==> #[trigger] found(t.binds, k) == found(s.binds, k)
            &&& forall|k: Text| #[trigger]
                found(t.pending, k) == (if bind_texts(binds).contains(k) {
                    None
                } else {
                    found(s.pending, k)
                })
        }),
    decreases binds.len(),
{
    if binds.len() > 0 {
        let rest = binds.drop_last();
        lemma_insert_binds(s, rest);
        let keys = bind_texts(binds);
        assert(keys.drop_last() =~= bind_texts(rest));
        assert(keys.last() == binds.last().key);
        let b = s.insert_binds(rest);
        let t = s.insert_binds(binds);
        assert forall|k: Text| #[trigger] keys.contains(k) implies t.binds.contains_key(k) by {
            lemma_last_or_rest(keys, k);
        }
        assert forall|k: Text| !keys.contains(k) implies #[trigger] found(t.binds, k) == found(
            s.binds,
            k,
        ) by {
            lemma_last_or_rest(keys, k);
            assert(found(b.binds, k) == found(s.binds, k));
        }
        assert forall|k: Text| #[trigger]
            found(t.pending, k) == (if keys.contains(k) {
                None
            } else {
                found(s.pending, k)
            }) by {
            lemma_last_or_rest(keys, k);
            assert(found(b.pending, k) == (if bind_texts(rest).contains(k) {
                None
            } else {
                found(s.pending, k)
            }));
        }
    }
}

proof fn lemma_insert_backends(s: StoreView, backends: Seq<BackendWithPolicies>)
    ensures
        ({
            let t = s.insert_backends(backends);
            &&& t == (StoreView { backends: t.backends, tokenizes: t.tokenizes, ..s })
            &&& forall|k: Text| #[trigger]
                backend_texts(backends).contains(k) ==> t.backends.contains_key(k)
            &&& forall|k: Text|
                !backend_texts(backends).contains(k) ==> #[trigger] found(t.backends, k) == found(
                    s.backends,
                    k,
                )
        }),
    decreases backends.len(),
{
    if backends.len() > 0 {
        let rest = backends.drop_last();
        lemma_insert_backends(s, rest);
        let keys = backend_texts(backends);
        assert(keys.drop_last() =~= backend_texts(rest));
        assert(keys.last() == backends.last().backend@.name_text());
        let b = s.insert_backends(rest);
        let t = s.insert_backends(backends);
        assert forall|k: Text| #[trigger] keys.contains(k) implies t.backends.contains_key(k) by {
            lemma_last_or_rest(keys, k);
        }
        assert forall|k: Text| !keys.contains(k) implies #[trigger] found(t.backends, k) == found(
            s.backends,
            k,
        ) by {
            lemma_last_or_rest(keys, k);
            assert(found(b.backends, k) == found(s.backends, k));
        }
    }
}

proof fn lemma_insert_policies(s: StoreView, policies: Seq<TargetedPolicy>)
    ensures
        ({
            let t = s.insert_policies(policies);
            &&& t == (StoreView {
                policies: t.policies,
                policy_order: t.policy_order,
                by_target: t.by_target,
                ..s
            })
            &&& forall|k: Text| #[trigger]
                policy_texts(policies).contains(k) ==> t.policies.contains_key(k)
            &&& forall|k: Text|
                !policy_texts(policies).contains(k) ==> #[trigger] found(t.policies, k) == found(
                    s.policies,
                    k,
                )
        }),
    decreases policies.len(),
{
    if policies.len() > 0 {
        let rest = policies.drop_last();
        lemma_insert_policies(s, rest);
        let keys = policy_texts(policies);
        assert(keys.drop_last() =~= policy_texts(rest));
        assert(keys.last() == policies.last().key@);
        let b = s.insert_policies(rest);
        let t = s.insert_policies(policies);
        assert forall|k: Text| #[trigger] keys.contains(k) implies t.policies.contains_key(k) by {
            lemma_last_or_rest(keys, k);
        }
        assert forall|k: Text| !keys.contains(k) implies #[trigger] found(t.policies, k) == found(
            s.policies,
            k,
        ) by {
            lemma_last_or_rest(keys, k);
            assert(found(b.policies, k) == found(s.policies, k));
        }
    }
}

proof fn lemma_remove_binds(s: StoreView, keys: Seq<Text>)
    ensures
        ({
            let t = s.remove_binds(keys);
            &&& t == (StoreView {
                binds: t.binds,
                bind_order: t.bind_order,
                events: t.events,
                ..s
            })
            &&& forall|k: Text| #[trigger]
                found(t.binds, k) == (if keys.contains(k) {
                    None
                } else {
                    found(s.binds, k)
                })
        }),
    decreases keys.len(),
{
    if keys.len() > 0 {
        let rest = keys.drop_last();
        lemma_remove_binds(s, rest);
        assert forall|k: Text| #[trigger]
            found(s.remove_binds(keys).binds, k) == (if keys.contains(k) {
                None
            } else {
                found(s.binds, k)
            }) by {
            lemma_last_or_rest(keys, k);
            assert(found(s.remove_binds(rest).binds, k) == (if rest.contains(k) {
                None
            } else {
                found(s.binds, k)
            }));
        }
    }
}

proof fn lemma_remove_backends(s: StoreView, keys: Seq<Text>)
    ensures
        ({
            let t = s.remove_backends(keys);
            &&& t == (StoreView { backends: t.backends, ..s })
            &&& forall|k: Text| #[trigger]
                found(t.backends, k) == (if keys.contains(k) {
                    None
                } else {
                    found(s.backends, k)
                })
        }),
    decreases keys.len(),
{
    if keys.len() > 0 {
        let rest = keys.drop_last();
        lemma_remove_backends(s, rest);
        assert forall|k: Text| #[trigger]
            found(s.remove_backends(keys).backends, k) == (if keys.contains(k) {
                None
            } else {
                found(s.backends, k)
            }) by {
            lemma_last_or_rest(keys, k);
            assert(found(s.remove_backends(rest).backends, k) == (if rest.contains(k) {
                None
            } else {
                found(s.backends, k)
            }));
        }
    }
}

proof fn lemma_remove_policies(s: StoreView, keys: Seq<Text>)
    ensures
        ({
            let t = s.remove_policies(keys);
            &&& t == (StoreView {
                policies: t.policies,
                policy_order: t.policy_order,
                by_target: t.by_target,
                ..s
            })
            &&& forall|k: Text| #[trigger]
                found(t.policies, k) == (if keys.contains(k) {
                    None
                } else {
                    found(s.policies, k)
                })
        }),
    decreases keys.len(),
{
    if keys.len() > 0 {
        let rest = keys.drop_last();
        lemma_remove_policies(s, rest);
        assert forall|k: Text| #[trigger]
            found(s.remove_policies(keys).policies, k) == (if keys.contains(k) {
                None
            } else {
                found(s.policies, k)
            }) by {
            lemma_last_or_rest(keys, k);
            assert(found(s.remove_policies(rest).policies, k) == (if rest.contains(k) {
                None
            } else {
                found(s.policies, k)
            }));
        }
    }
}

// ---------------------------------------------------------------------------------------------
// What a synchronization replaces
// ---------------------------------------------------------------------------------------------

/// The store after a synchronization with a local configuration, given the keys that the one before
/// put in place.
pub open spec fn synced(
    s: StoreView,
    binds: Seq<BindView>,
    listener_routes: Seq<(ListenerKey, Vec<Route>)>,
    listener_tcp_routes: Seq<(ListenerKey, Vec<TCPRoute>)>,
    policies: Seq<TargetedPolicy>,
    backends: Seq<BackendWithPolicies>,
    route_groups: Seq<(RouteGroupKey, Vec<Route>)>,
    prev: PreviousStateView,
) -> StoreView {
    s.with_local(
        binds,
        listener_routes,
        listener_tcp_routes,
        policies,
        backends,
        route_groups,
    ).without_all(
        stale_keys(
            prev,
            local_keys(
                binds,
                listener_routes,
                listener_tcp_routes,
                policies,
                backends,
                route_groups,
            ),
        ),
    )
}

/// No key is listed twice.
pub open spec fn listed_once(prev: PreviousStateView) -> bool {
    &&& prev.binds.no_duplicates()
    &&& prev.routes.no_duplicates()
    &&& prev.tcp_routes.no_duplicates()
    &&& prev.policies.no_duplicates()
    &&& prev.backends.no_duplicates()
    &&& prev.route_groups.no_duplicates()
}

/// What a map holds after a synchronization that puts the keys in place and takes the others out
/// that the one before put in place.
pub open spec fn replaced<V>(
    before: Map<Text, V>,
    after: Map<Text, V>,
    keys: Seq<Text>,
    prev: Seq<Text>,
    k: Text,
) -> bool {
    if keys.contains(k) {
        after.contains_key(k)
    } else if prev.contains(k) {
        !after.contains_key(k)
    } else {
        found(after, k) == found(before, k)
    }
}

/// After a synchronization everything that the configuration lists is there: every bind, policy and
/// backend, and for every listener and group its routes. A bind, policy, backend, route or group
/// that the last configuration listed and this one does not is gone: such a route is in no set, and
/// such a group has no set. Whatever else was there stays.
pub proof fn sync_replaces_the_configuration(
    s: StoreView,
    binds: Seq<BindView>,
    listener_routes: Seq<(ListenerKey, Vec<Route>)>,
    listener_tcp_routes: Seq<(ListenerKey, Vec<TCPRoute>)>,
    policies: Seq<TargetedPolicy>,
    backends: Seq<BackendWithPolicies>,
    route_groups: Seq<(RouteGroupKey, Vec<Route>)>,
    prev: PreviousStateView,
    target: RouteTargetView,
    k: Text,
)
    requires
        listed_once(prev),
    ensures
        ({
            let keys = local_keys(
                binds,
                listener_routes,
                listener_tcp_routes,
                policies,
                backends,
                route_groups,
            );
            let t = synced(
                s,
                binds,
                listener_routes,
                listener_tcp_routes,
                policies,
                backends,
                route_groups,
                prev,
            );
            &&& replaced(s.binds, t.binds, keys.binds, prev.binds, k)
            &&& replaced(s.policies, t.policies, keys.policies, prev.policies, k)
            &&& replaced(s.backends, t.backends, keys.backends, prev.backends, k)
            &&& route_at(t.http_routes, target, k) == (if prev.routes.contains(k)
                && !keys.routes.contains(k) {
                None
            } else if is_group_of(target, prev.route_groups) && !is_group_of(
                target,
                keys.route_groups,
            ) {
                None
            } else {
                first_of(
                    listener_route(listener_routes, target, k),
                    first_of(
                        group_route(route_groups, target, k),
                        route_at(s.http_routes, target, k),
                    ),
                )
            })
            &&& route_at(t.tcp_routes, target, k) == (if prev.tcp_routes.contains(k)
                && !keys.tcp_routes.contains(k) {
                None
            } else {
                first_of(
                    listener_route(listener_tcp_routes, target, k),
                    route_at(s.tcp_routes, target, k),
                )
            })
            &&& prev.route_groups.contains(k) && !keys.route_groups.contains(k)
                ==> !t.http_routes.contains_key(RouteTargetView::RouteGroup(k).id())
        }),
{
    let keys = local_keys(
        binds,
        listener_routes,
        listener_tcp_routes,
        policies,
        backends,
        route_groups,
    );
    let stale = stale_keys(prev, keys);
    lemma_minus(prev.binds, keys.binds);
    lemma_minus(prev.routes, keys.routes);
    lemma_minus(prev.tcp_routes, keys.tcp_routes);
    lemma_minus(prev.policies, keys.policies);
    lemma_minus(prev.backends, keys.backends);
    lemma_minus(prev.route_groups, keys.route_groups);
    let s1 = s.insert_binds(binds);
    lemma_insert_binds(s, binds);
    let s2 = s1.insert_backends(backends);
    lemma_insert_backends(s1, backends);
    let s3 = s2.insert_listener_routes(listener_routes);
    lemma_insert_listener_routes(s2, listener_routes);
    let s4 = s3.insert_listener_tcp_routes(listener_tcp_routes);
    lemma_insert_listener_tcp_routes(s3, listener_tcp_routes);
    let s5 = s4.insert_policies(policies);
    lemma_insert_policies(s4, policies);
    let s6 = s5.insert_route_groups(route_groups);
    lemma_insert_route_groups(s5, route_groups);
    let t1 = s6.remove_binds(stale.binds);
    lemma_remove_binds(s6, stale.binds);
    let t2 = t1.remove_routes(stale.routes);
    lemma_remove_routes(t1, stale.routes);
    let t3 = t2.remove_tcp_routes(stale.tcp_routes);
    lemma_remove_tcp_routes(t2, stale.tcp_routes);
    let t4 = t3.remove_policies(stale.policies);
    lemma_remove_policies(t3, stale.policies);
    let t5 = t4.remove_backends(stale.backends);
    lemma_remove_backends(t4, stale.backends);
    let t6 = t5.remove_route_groups(stale.route_groups);
    lemma_remove_route_groups(t5, stale.route_groups);
    assert(found(s1.binds, k) == found(s6.binds, k));
    assert(found(t1.binds, k) == found(t6.binds, k));
    assert(found(s5.policies, k) == found(t3.policies, k));
    assert(found(t4.policies, k) == found(t6.policies, k));
    assert(found(s2.backends, k) == found(t4.backends, k));
    assert(found(t5.backends, k) == found(t6.backends, k));
    assert(stale.binds.contains(k) <==> (prev.binds.contains(k) && !keys.binds.contains(k)));
    assert(stale.routes.contains(k) <==> (prev.routes.contains(k) && !keys.routes.contains(k)));
    assert(stale.tcp_routes.contains(k) <==> (prev.tcp_routes.contains(k)
        && !keys.tcp_routes.contains(k)));
    assert(stale.policies.contains(k) <==> (prev.policies.contains(k) && !keys.policies.contains(
        k,
    )));
    assert(stale.backends.contains(k) <==> (prev.backends.contains(k) && !keys.backends.contains(
        k,
    )));
    match target {
        RouteTargetView::RouteGroup(g) => {
            assert(stale.route_groups.contains(g) <==> (prev.route_groups.contains(g)
                && !keys.route_groups.contains(g)));
        },
        _ => {},
    }
    assert(route_at(t2.http_routes, target, k) == route_at(t5.http_routes, target, k));
    assert(route_at(s6.http_routes, target, k) == route_at(t1.http_routes, target, k));
    assert(route_at(s5.http_routes, target, k) == route_at(s3.http_routes, target, k));
    assert(route_at(s2.http_routes, target, k) == route_at(s.http_routes, target, k));
    assert(route_at(t3.tcp_routes, target, k) == route_at(t6.tcp_routes, target, k));
    assert(route_at(s4.tcp_routes, target, k) == route_at(t2.tcp_routes, target, k));
    assert(route_at(s3.tcp_routes, target, k) == route_at(s.tcp_routes, target, k));
    assert(stale.route_groups.contains(k) <==> (prev.route_groups.contains(k)
        && !keys.route_groups.contains(k)));
}

/// The keys that a synchronization returns are those of the configuration, so that the next one
/// takes out what it leaves off.
pub proof fn sync_remembers_the_configuration(keys: PreviousStateView, k: Text)
    ensures
        listed_once(all_distinct(keys)),
        all_distinct(keys).binds.contains(k) <==> keys.binds.contains(k),
        all_distinct(keys).routes.contains(k) <==> keys.routes.contains(k),
        all_distinct(keys).tcp_routes.contains(k) <==> keys.tcp_routes.contains(k),
        all_distinct(keys).policies.contains(k) <==> keys.policies.contains(k),
        all_distinct(keys).backends.contains(k) <==> keys.backends.contains(k),
        all_distinct(keys).route_groups.contains(k) <==> keys.route_groups.contains(k),
{
    lemma_distinct(keys.binds);
    lemma_distinct(keys.routes);
    lemma_distinct(keys.tcp_routes);
    lemma_distinct(keys.policies);
    lemma_distinct(keys.backends);
    lemma_distinct(keys.route_groups);
}

// ---------------------------------------------------------------------------------------------
// What an empty synchronization undoes
// ---------------------------------------------------------------------------------------------

/// The texts of a sequence that are not among the given ones, in order.
spec fn outside(s: Seq<Text>, all: Seq<Text>) -> Seq<Text> {
    s.filter(|k: Text| !all.contains(k))
}

proof fn lemma_outside_added(s: Seq<Text>, k: Text, all: Seq<Text>)
    requires
        all.contains(k),
    ensures
        outside(added(s, k), all) == outside(s, all),
{
    reveal(Seq::filter);
    if !s.contains(k) {
        assert(s.push(k).drop_last() =~= s);
    }
}

proof fn lemma_outside_without(s: Seq<Text>, k: Text, all: Seq<Text>)
    requires
        all.contains(k),
    ensures
        outside(without(s, k), all) == outside(s, all),
{
    if s.contains(k) {
        let i = s.index_of(k);
        let keep = |x: Text| !all.contains(x);
        let a = s.take(i);
        let b = s.skip(i + 1);
        assert(s =~= a.push(k) + b);
        assert(s.remove(i) =~= a + b);
        Seq::filter_distributes_over_add(a.push(k), b, keep);
        Seq::filter_distributes_over_add(a, b, keep);
        reveal(Seq::filter);
        assert(a.push(k).drop_last() =~= a);
    }
}

proof fn lemma_outside_all(s: Seq<Text>, all: Seq<Text>)
    requires
        forall|k: Text| #[trigger] s.contains(k) ==> !all.contains(k),
    ensures
        outside(s, all) == s,
    decreases s.len(),
{
    reveal(Seq::filter);
    if s.len() > 0 {
        let rest = s.drop_last();
        assert forall|k: Text| #[trigger] rest.contains(k) implies !all.contains(k) by {
            lemma_last_or_rest(s, k);
        }
        lemma_outside_all(rest, all);
        lemma_last_or_rest(s, s.last());
        assert(rest.push(s.last()) =~= s);
    }
}

/// Whether the order of the binds lists each of them once.
spec fn binds_ordered(s: StoreView) -> bool {
    &&& s.bind_order.no_duplicates()
    &&& forall|k: Text| #[trigger] s.bind_order.contains(k) <==> s.binds.contains_key(k)
}

proof fn lemma_binds_put(s: StoreView, binds: Seq<BindView>, all: Seq<Text>)
    requires
        binds_ordered(s),
        forall|k: Text| #[trigger] bind_texts(binds).contains(k) ==> all.contains(k),
    ensures
        binds_ordered(s.insert_binds(binds)),
        outside(s.insert_binds(binds).bind_order, all) == outside(s.bind_order, all),
    decreases binds.len(),
{
    if binds.len() > 0 {
        let rest = binds.drop_last();
        let keys = bind_texts(binds);
        assert(keys.drop_last() =~= bind_texts(rest));
        assert(keys.last() == binds.last().key);
        assert forall|k: Text| #[trigger] bind_texts(rest).contains(k) implies all.contains(k) by {
            lemma_last_or_rest(keys, k);
        }
        lemma_last_or_rest(keys, keys.last());
        lemma_binds_put(s, rest, all);
        let b = s.insert_binds(rest);
        lemma_added(b.bind_order, keys.last());
        lemma_outside_added(b.bind_order, keys.last(), all);
    }
}

proof fn lemma_binds_taken(s: StoreView, keys: Seq<Text>, all: Seq<Text>)
    requires
        binds_ordered(s),
        forall|k: Text| #[trigger] keys.contains(k) ==> all.contains(k),
    ensures
        binds_ordered(s.remove_binds(keys)),
        outside(s.remove_binds(keys).bind_order, all) == outside(s.bind_order, all),
    decreases keys.len(),
{
    if keys.len() > 0 {
        let rest = keys.drop_last();
        assert forall|k: Text| #[trigger] rest.contains(k) implies all.contains(k) by {
            lemma_last_or_rest(keys, k);
        }
        lemma_last_or_rest(keys, keys.last());
        lemma_binds_taken(s, rest, all);
        let b = s.remove_binds(rest);
        lemma_without(b.bind_order, keys.last());
        lemma_outside_without(b.bind_order, keys.last(), all);
    }
}

/// The policies of a store, and nothing else of it.
spec fn only_policies(s: StoreView) -> StoreView {
    StoreView {
        policies: s.policies,
        policy_order: s.policy_order,
        by_target: s.by_target,
        ..StoreView::empty(false, None)
    }
}

/// Whether the policies outside the given ones are listed alike.
spec fn same_outside(s: StoreView, t: StoreView, all: Seq<Text>) -> bool {
    &&& outside(t.policy_order, all) == outside(s.policy_order, all)
    &&& forall|id: TargetId|
        outside(#[trigger] keys_at(t.by_target, id), all) == outside(keys_at(s.by_target, id), all)
}

proof fn lemma_detached_outside(s: StoreView, key: Text, all: Seq<Text>, id: TargetId)
    requires
        all.contains(key),
    ensures
        outside(keys_at(s.detached(key), id), all) == outside(keys_at(s.by_target, id), all),
{
    if s.by_target.contains_key(id) {
        lemma_outside_without(s.by_target[id], key, all);
    }
}

proof fn lemma_policies_put(s: StoreView, policies: Seq<TargetedPolicy>, all: Seq<Text>)
    requires
        only_policies(s).inv(),
        forall|k: Text| #[trigger] policy_texts(policies).contains(k) ==> all.contains(k),
    ensures
        only_policies(s.insert_policies(policies)).inv(),
        same_outside(s, s.insert_policies(policies), all),
    decreases policies.len(),
{
    if policies.len() > 0 {
        let rest = policies.drop_last();
        let keys = policy_texts(policies);
        let pol = policies.last();
        let key = pol.key@;
        assert(keys.drop_last() =~= policy_texts(rest));
        assert(keys.last() == key);
        assert forall|k: Text| #[trigger] policy_texts(rest).contains(k) implies all.contains(k) by {
            lemma_last_or_rest(keys, k);
        }
        lemma_last_or_rest(keys, key);
        lemma_policies_put(s, rest, all);
        let b = s.insert_policies(rest);
        let t = s.insert_policies(policies);
        assert(only_policies(b).insert_policy(pol) =~= only_policies(t));
        insert_policy_keeps_inv(only_policies(b), pol);
        lemma_outside_added(b.policy_order, key, all);
        assert forall|id: TargetId|
            outside(#[trigger] keys_at(t.by_target, id), all) == outside(
                keys_at(s.by_target, id),
                all,
            ) by {
            lemma_detached_outside(b, key, all, id);
            lemma_outside_added(keys_at(b.detached(key), id), key, all);
            assert(outside(keys_at(b.by_target, id), all) == outside(
                keys_at(s.by_target, id),
                all,
            ));
        }
    }
}

proof fn lemma_policies_taken(s: StoreView, keys: Seq<Text>, all: Seq<Text>)
    requires
        only_policies(s).inv(),
        forall|k: Text| #[trigger] keys.contains(k) ==> all.contains(k),
    ensures
        only_policies(s.remove_policies(keys)).inv(),
        same_outside(s, s.remove_policies(keys), all),
    decreases keys.len(),
{
    if keys.len() > 0 {
        let rest = keys.drop_last();
        let key = keys.last();
        assert forall|k: Text| #[trigger] rest.contains(k) implies all.contains(k) by {
            lemma_last_or_rest(keys, k);
        }
        lemma_last_or_rest(keys, key);
        lemma_policies_taken(s, rest, all);
        let b = s.remove_policies(rest);
        let t = s.remove_policies(keys);
        assert(only_policies(b).remove_policy(key) =~= only_policies(t));
        remove_policy_keeps_inv(only_policies(b), key);
        lemma_outside_without(b.policy_order, key, all);
        assert forall|id: TargetId|
            outside(#[trigger] keys_at(t.by_target, id), all) == outside(
                keys_at(s.by_target, id),
                all,
            ) by {
            lemma_detached_outside(b, key, all, id);
            assert(outside(keys_at(b.by_target, id), all) == outside(
                keys_at(s.by_target, id),
                all,
            ));
        }
    }
}

/// The keys where nothing was put in place.
pub open spec fn nothing_listed() -> PreviousStateView {
    PreviousStateView {
        binds: Seq::empty(),
        routes: Seq::empty(),
        tcp_routes: Seq::empty(),
        policies: Seq::empty(),
        backends: Seq::empty(),
        route_groups: Seq::empty(),
    }
}

/// Whether the store holds nothing under the keys, and no listener waits for a bind of them.
pub open spec fn holds_none(s: StoreView, keys: PreviousStateView) -> bool {
    &&& forall|k: Text| #[trigger]
        keys.binds.contains(k) ==> !s.binds.contains_key(k) && !s.pending.contains_key(k)
    &&& forall|k: Text| #[trigger] keys.policies.contains(k) ==> !s.policies.contains_key(k)
    &&& forall|k: Text| #[trigger] keys.backends.contains(k) ==> !s.backends.contains_key(k)
    &&& forall|target: RouteTargetView, k: Text|
        keys.routes.contains(k) ==> #[trigger] route_at(s.http_routes, target, k) is None
    &&& forall|target: RouteTargetView, k: Text|
        keys.tcp_routes.contains(k) ==> #[trigger] route_at(s.tcp_routes, target, k) is None
    &&& forall|g: Text| #[trigger]
        keys.route_groups.contains(g) ==> !s.http_routes.contains_key(
            RouteTargetView::RouteGroup(g).id(),
        )
}

/// Whether two stores hold the same, in the same order. They may differ in what they told watchers
/// and subscribers.
pub open spec fn holds_the_same(s: StoreView, t: StoreView) -> bool {
    &&& t.binds == s.binds
    &&& t.bind_order == s.bind_order
    &&& t.pending == s.pending
    &&& t.policies == s.policies
    &&& t.policy_order == s.policy_order
    &&& forall|id: TargetId| #[trigger] t.attached(id) == s.attached(id)
    &&& t.backends == s.backends
    &&& t.http_routes == s.http_routes
    &&& t.tcp_routes == s.tcp_routes
    &&& t.resources == s.resources
    &&& t.ipv6_enabled == s.ipv6_enabled
    &&& t.cores == s.cores
}

proof fn lemma_minus_nothing(keys: Seq<Text>)
    ensures
        minus(Seq::<Text>::empty(), keys) == Seq::<Text>::empty(),
    decreases keys.len(),
{
    if keys.len() > 0 {
        lemma_minus_nothing(keys.drop_last());
    }
}

proof fn lemma_last_keyed<R: Keyed>(routes: Seq<R>, k: Text)
    ensures
        last_keyed(routes, k) is Some ==> route_texts(routes).contains(k),
    decreases routes.len(),
{
    if routes.len() > 0 {
        let keys = route_texts(routes);
        assert(keys.drop_last() =~= route_texts(routes.drop_last()));
        assert(keys.last() == routes.last().key_text());
        lemma_last_keyed(routes.drop_last(), k);
        lemma_last_or_rest(keys, k);
    }
}

proof fn lemma_last_under<R: Keyed>(entries: Seq<(String, Vec<R>)>, owner: Text, k: Text)
    ensures
        last_under(entries, owner, k) is Some ==> all_route_texts(entries).contains(k) && entries.map_values(
            |e: (String, Vec<R>)| e.0@,
        ).contains(owner),
    decreases entries.len(),
{
    if entries.len() > 0 {
        let rest = entries.drop_last();
        let owners = entries.map_values(|e: (String, Vec<R>)| e.0@);
        assert(owners.drop_last() =~= rest.map_values(|e: (String, Vec<R>)| e.0@));
        assert(owners.last() == entries.last().0@);
        lemma_last_under(rest, owner, k);
        lemma_last_keyed(entries.last().1@, k);
        lemma_last_or_rest(owners, owner);
        let a = all_route_texts(rest);
        let b = route_texts(entries.last().1@);
        if a.contains(k) {
            assert((a + b)[a.index_of(k)] == k);
        }
        if b.contains(k) {
            assert((a + b)[a.len() + b.index_of(k)] == k);
        }
    }
}

/// A synchronization with an empty configuration undoes the one before: where the store held
/// nothing under the keys of a configuration, it holds the same as at first once that configuration
/// was put in place and an empty one after it, and no key is remembered.
pub proof fn empty_sync_undoes_the_one_before(
    s: StoreView,
    binds: Seq<BindView>,
    listener_routes: Seq<(ListenerKey, Vec<Route>)>,
    listener_tcp_routes: Seq<(ListenerKey, Vec<TCPRoute>)>,
    policies: Seq<TargetedPolicy>,
    backends: Seq<BackendWithPolicies>,
    route_groups: Seq<(RouteGroupKey, Vec<Route>)>,
)
    requires
        s.inv(),
        holds_none(
            s,
            local_keys(
                binds,
                listener_routes,
                listener_tcp_routes,
                policies,
                backends,
                route_groups,
            ),
        ),
    ensures
        ({
            let keys = local_keys(
                binds,
                listener_routes,
                listener_tcp_routes,
                policies,
                backends,
                route_groups,
            );
            let none = local_keys(
                Seq::empty(),
                Seq::empty(),
                Seq::empty(),
                Seq::empty(),
                Seq::empty(),
                Seq::empty(),
            );
            let first = synced(
                s,
                binds,
                listener_routes,
                listener_tcp_routes,
                policies,
                backends,
                route_groups,
                nothing_listed(),
            );
            let second = synced(
                first,
                Seq::empty(),
                Seq::empty(),
                Seq::empty(),
                Seq::empty(),
                Seq::empty(),
                Seq::empty(),
                all_distinct(keys),
            );
            &&& holds_the_same(s, second)
            &&& all_distinct(none) == nothing_listed()
        }),
{
    let keys = local_keys(
        binds,
        listener_routes,
        listener_tcp_routes,
        policies,
        backends,
        route_groups,
    );
    let none = local_keys(
        Seq::empty(),
        Seq::empty(),
        Seq::empty(),
        Seq::empty(),
        Seq::empty(),
        Seq::empty(),
    );
    let p = all_distinct(keys);
    assert(none =~= nothing_listed());
    lemma_nothing_stale(keys);
    let s1 = s.insert_binds(binds);
    lemma_insert_binds(s, binds);
    let s2 = s1.insert_backends(backends);
    lemma_insert_backends(s1, backends);
    let s3 = s2.insert_listener_routes(listener_routes);
    lemma_insert_listener_routes(s2, listener_routes);
    let s4 = s3.insert_listener_tcp_routes(listener_tcp_routes);
    lemma_insert_listener_tcp_routes(s3, listener_tcp_routes);
    let s5 = s4.insert_policies(policies);
    lemma_insert_policies(s4, policies);
    let s6 = s5.insert_route_groups(route_groups);
    lemma_insert_route_groups(s5, route_groups);
    let first = synced(
        s,
        binds,
        listener_routes,
        listener_tcp_routes,
        policies,
        backends,
        route_groups,
        nothing_listed(),
    );
    assert(first == s6);
    let t1 = s6.remove_binds(p.binds);
    lemma_remove_binds(s6, p.binds);
    let t2 = t1.remove_routes(p.routes);
    lemma_remove_routes(t1, p.routes);
    let t3 = t2.remove_tcp_routes(p.tcp_routes);
    lemma_remove_tcp_routes(t2, p.tcp_routes);
    let t4 = t3.remove_policies(p.policies);
    lemma_remove_policies(t3, p.policies);
    let t5 = t4.remove_backends(p.backends);
    lemma_remove_backends(t4, p.backends);
    let t6 = t5.remove_route_groups(p.route_groups);
    lemma_remove_route_groups(t5, p.route_groups);
    let second = synced(
        first,
        Seq::empty(),
        Seq::empty(),
        Seq::empty(),
        Seq::empty(),
        Seq::empty(),
        Seq::empty(),
        p,
    );
    assert(second == t6);
    assert forall|k: Text| #[trigger] found(t6.binds, k) == found(s.binds, k) by {
        sync_remembers_the_configuration(keys, k);
        assert(found(t1.binds, k) == found(t6.binds, k));
        assert(found(s1.binds, k) == found(s6.binds, k));
    }
    lemma_same_found(t6.binds, s.binds);
    assert forall|k: Text| #[trigger] found(t6.pending, k) == found(s.pending, k) by {
        assert(found(s1.pending, k) == found(t6.pending, k));
    }
    lemma_same_found(t6.pending, s.pending);
    assert forall|k: Text| #[trigger] found(t6.policies, k) == found(s.policies, k) by {
        sync_remembers_the_configuration(keys, k);
        assert(found(t4.policies, k) == found(t6.policies, k));
        assert(found(s5.policies, k) == found(t3.policies, k));
    }
    lemma_same_found(t6.policies, s.policies);
    assert forall|k: Text| #[trigger] found(t6.backends, k) == found(s.backends, k) by {
        sync_remembers_the_configuration(keys, k);
        assert(found(t5.backends, k) == found(t6.backends, k));
        assert(found(s2.backends, k) == found(t4.backends, k));
    }
    lemma_same_found(t6.backends, s.backends);
    assert forall|target: RouteTargetView, k: Text| #[trigger]
        route_at(t6.http_routes, target, k) == route_at(s.http_routes, target, k) by {
        sync_remembers_the_configuration(keys, k);
        assert(route_at(t2.http_routes, target, k) == route_at(t5.http_routes, target, k));
        assert(route_at(s6.http_routes, target, k) == route_at(t1.http_routes, target, k));
        assert(route_at(s5.http_routes, target, k) == route_at(s3.http_routes, target, k));
        assert(route_at(s2.http_routes, target, k) == route_at(s.http_routes, target, k));
        match target {
            RouteTargetView::Listener(l) => lemma_last_under(listener_routes, l, k),
            RouteTargetView::RouteGroup(g) => {
                sync_remembers_the_configuration(keys, g);
                lemma_last_under(route_groups, g, k);
            },
            RouteTargetView::Service(_) => {},
        }
    }
    lemma_same_routes(t6.http_routes, s.http_routes);
    assert forall|target: RouteTargetView, k: Text| #[trigger]
        route_at(t6.tcp_routes, target, k) == route_at(s.tcp_routes, target, k) by {
        sync_remembers_the_configuration(keys, k);
        assert(route_at(t3.tcp_routes, target, k) == route_at(t6.tcp_routes, target, k));
        assert(route_at(s4.tcp_routes, target, k) == route_at(t2.tcp_routes, target, k));
        assert(route_at(s3.tcp_routes, target, k) == route_at(s.tcp_routes, target, k));
        match target {
            RouteTargetView::Listener(l) => lemma_last_under(listener_tcp_routes, l, k),
            _ => {},
        }
    }
    lemma_same_routes(t6.tcp_routes, s.tcp_routes);
    lemma_distinct(keys.binds);
    lemma_distinct(keys.policies);
    lemma_binds_put(s, binds, keys.binds);
    lemma_binds_taken(s6, p.binds, keys.binds);
    lemma_outside_all(s.bind_order, keys.binds);
    assert(binds_ordered(t1));
    assert forall|k: Text| #[trigger] t1.bind_order.contains(k) implies !keys.binds.contains(k) by {
        assert(t6.binds.contains_key(k));
    }
    lemma_outside_all(t1.bind_order, keys.binds);
    assert(only_policies(s4) =~= only_policies(s));
    assert(only_policies(s).inv());
    lemma_policies_put(s4, policies, keys.policies);
    assert(only_policies(t3) =~= only_policies(s5));
    lemma_policies_taken(t3, p.policies, keys.policies);
    lemma_outside_all(s.policy_order, keys.policies);
    assert(only_policies(t4).inv());
    assert forall|k: Text| #[trigger] t4.policy_order.contains(k) implies !keys.policies.contains(
        k,
    ) by {
        assert(only_policies(t4).policies.contains_key(k));
        assert(s.policies.contains_key(k));
    }
    lemma_outside_all(t4.policy_order, keys.policies);
    assert forall|id: TargetId| #[trigger] second.attached(id) == s.attached(id) by {
        let after = keys_at(t4.by_target, id);
        let before = keys_at(s.by_target, id);
        assert forall|k: Text| #[trigger] after.contains(k) implies !keys.policies.contains(k) by {
            assert(keys_at(only_policies(t4).by_target, id).contains(k));
            assert(only_policies(t4).policies.contains_key(k));
            assert(s.policies.contains_key(k));
        }
        assert forall|k: Text| #[trigger] before.contains(k) implies !keys.policies.contains(k) by {
            assert(s.policies.contains_key(k));
        }
        lemma_outside_all(after, keys.policies);
        lemma_outside_all(before, keys.policies);
        assert(outside(keys_at(s5.by_target, id), keys.policies) == outside(
            keys_at(s4.by_target, id),
            keys.policies,
        ));
    }
}

/// Maps are the same where the same is found in them.
proof fn lemma_same_found<V>(a: Map<Text, V>, b: Map<Text, V>)
    requires
        forall|k: Text| #[trigger] found(a, k) == found(b, k),
    ensures
        a == b,
{
    assert forall|k: Text| #[trigger] a.contains_key(k) == b.contains_key(k) by {
        assert(found(a, k) == found(b, k));
    }
    assert forall|k: Text| #[trigger] a.contains_key(k) implies a[k] == b[k] by {
        assert(found(a, k) == found(b, k));
    }
    assert(a =~= b);
}

/// Where nothing was listed before nothing is stale, and where nothing is listed now everything is.
proof fn lemma_nothing_stale(keys: PreviousStateView)
    ensures
        stale_keys(nothing_listed(), keys) == nothing_listed(),
        stale_keys(all_distinct(keys), nothing_listed()) == all_distinct(keys),
        all_distinct(nothing_listed()) == nothing_listed(),
{
    lemma_minus_nothing(keys.binds);
    lemma_minus_nothing(keys.routes);
    lemma_minus_nothing(keys.tcp_routes);
    lemma_minus_nothing(keys.policies);
    lemma_minus_nothing(keys.backends);
    lemma_minus_nothing(keys.route_groups);
    assert(stale_keys(nothing_listed(), keys) =~= nothing_listed());
    assert(stale_keys(all_distinct(keys), nothing_listed()) =~= all_distinct(keys));
    assert(all_distinct(nothing_listed()) =~= nothing_listed());
}

// ---------------------------------------------------------------------------------------------
// Which item of a configuration is stored
// ---------------------------------------------------------------------------------------------

/// The last of the backends of a name is the one that is stored.
proof fn lemma_last_backend(s: StoreView, backends: Seq<BackendWithPolicies>, i: int)
    requires
        0 <= i < backends.len(),
        forall|j: int|
            i < j < backends.len() ==> (#[trigger] backends[j]).backend@.name_text()
                != backends[i].backend@.name_text(),
    ensures
        found(s.insert_backends(backends).backends, backends[i].backend@.name_text()) == Some(
            Arc::new(backends[i]),
        ),
    decreases backends.len(),
{
    if i < backends.len() - 1 {
        assert(backends[backends.len() - 1].backend@.name_text()
            != backends[i].backend@.name_text());
        assert(backends.drop_last()[i] == backends[i]);
        lemma_last_backend(s, backends.drop_last(), i);
    }
}

/// The last of the policies with a key is the one that is attached.
proof fn lemma_last_policy(s: StoreView, policies: Seq<TargetedPolicy>, i: int)
    requires
        0 <= i < policies.len(),
        forall|j: int|
            i < j < policies.len() ==> (#[trigger] policies[j]).key@ != policies[i].key@,
    ensures
        found(s.insert_policies(policies).policies, policies[i].key@) == Some(
            Arc::new(policies[i]),
        ),
    decreases policies.len(),
{
    if i < policies.len() - 1 {
        assert(policies[policies.len() - 1].key@ != policies[i].key@);
        assert(policies.drop_last()[i] == policies[i]);
        lemma_last_policy(s, policies.drop_last(), i);
    }
}

/// The last of the binds with a key is the one that is served, with the listeners that waited for
/// it.
proof fn lemma_last_bind(s: StoreView, binds: Seq<BindView>, i: int)
    requires
        0 <= i < binds.len(),
        forall|j: int| i < j < binds.len() ==> (#[trigger] binds[j]).key != binds[i].key,
    ensures
        found(s.insert_binds(binds).binds, binds[i].key) == Some(
            BindView {
                listeners: binds[i].listeners.union_prefer_right(
                    if bind_texts(binds.take(i)).contains(binds[i].key) {
                        Map::empty()
                    } else {
                        s.waiting(binds[i].key)
                    },
                ),
                ..binds[i]
            },
        ),
    decreases binds.len(),
{
    let last = binds.len() - 1;
    let rest = binds.drop_last();
    if i < last {
        assert(binds[last].key != binds[i].key);
        assert(rest[i] == binds[i]);
        assert(rest.take(i) =~= binds.take(i));
        lemma_last_bind(s, rest, i);
    } else {
        assert(binds.take(i) =~= rest);
        lemma_insert_binds(s, rest);
        let b = s.insert_binds(rest);
        let k = binds[i].key;
        assert(found(b.pending, k) == (if bind_texts(rest).contains(k) {
            None
        } else {
            found(s.pending, k)
        }));
    }
}

/// After a synchronization the store holds, under the name of each backend of the configuration,
/// the last backend of that name, under the key of each policy the last policy with that key, and
/// under the key of each bind the last bind with that key. The listeners that waited for the bind
/// have joined the first bind with its key.
pub proof fn sync_stores_the_last_of_each_name(
    s: StoreView,
    binds: Seq<BindView>,
    listener_routes: Seq<(ListenerKey, Vec<Route>)>,
    listener_tcp_routes: Seq<(ListenerKey, Vec<TCPRoute>)>,
    policies: Seq<TargetedPolicy>,
    backends: Seq<BackendWithPolicies>,
    route_groups: Seq<(RouteGroupKey, Vec<Route>)>,
    prev: PreviousStateView,
    i: int,
)
    requires
        listed_once(prev),
    ensures
        ({
            let t = synced(
                s,
                binds,
                listener_routes,
                listener_tcp_routes,
                policies,
                backends,
                route_groups,
                prev,
            );
            &&& 0 <= i < backends.len() && (forall|j: int|
                i < j < backends.len() ==> (#[trigger] backends[j]).backend@.name_text()
                    != backends[i].backend@.name_text()) ==> t.backends.contains_key(
                backends[i].backend@.name_text(),
            ) && t.backends[backends[i].backend@.name_text()] == Arc::new(backends[i])
            &&& 0 <= i < policies.len() && (forall|j: int|
                i < j < policies.len() ==> (#[trigger] policies[j]).key@ != policies[i].key@)
                ==> t.policies.contains_key(policies[i].key@) && t.policies[policies[i].key@]
                == Arc::new(policies[i])
            &&& 0 <= i < binds.len() && (forall|j: int|
                i < j < binds.len() ==> (#[trigger] binds[j]).key != binds[i].key)
                ==> t.binds.contains_key(binds[i].key) && t.binds[binds[i].key] == (BindView {
                listeners: binds[i].listeners.union_prefer_right(
                    if exists|j: int| 0 <= j < i && (#[trigger] binds[j]).key == binds[i].key {
                        Map::empty()
                    } else if s.pending.contains_key(binds[i].key) {
                        s.pending[binds[i].key]
                    } else {
                        Map::empty()
                    },
                ),
                ..binds[i]
            })
        }),
{
    let keys = local_keys(
        binds,
        listener_routes,
        listener_tcp_routes,
        policies,
        backends,
        route_groups,
    );
    let stale = stale_keys(prev, keys);
    lemma_minus(prev.binds, keys.binds);
    lemma_minus(prev.policies, keys.policies);
    lemma_minus(prev.backends, keys.backends);
    let s1 = s.insert_binds(binds);
    lemma_insert_binds(s, binds);
    let s2 = s1.insert_backends(backends);
    lemma_insert_backends(s1, backends);
    let s3 = s2.insert_listener_routes(listener_routes);
    lemma_insert_listener_routes(s2, listener_routes);
    let s4 = s3.insert_listener_tcp_routes(listener_tcp_routes);
    lemma_insert_listener_tcp_routes(s3, listener_tcp_routes);
    let s5 = s4.insert_policies(policies);
    lemma_insert_policies(s4, policies);
    let s6 = s5.insert_route_groups(route_groups);
    lemma_insert_route_groups(s5, route_groups);
    let t1 = s6.remove_binds(stale.binds);
    lemma_remove_binds(s6, stale.binds);
    let t2 = t1.remove_routes(stale.routes);
    lemma_remove_routes(t1, stale.routes);
    let t3 = t2.remove_tcp_routes(stale.tcp_routes);
    lemma_remove_tcp_routes(t2, stale.tcp_routes);
    let t4 = t3.remove_policies(stale.policies);
    lemma_remove_policies(t3, stale.policies);
    let t5 = t4.remove_backends(stale.backends);
    lemma_remove_backends(t4, stale.backends);
    let t6 = t5.remove_route_groups(stale.route_groups);
    lemma_remove_route_groups(t5, stale.route_groups);
    if 0 <= i < backends.len() && (forall|j: int|
        i < j < backends.len() ==> (#[trigger] backends[j]).backend@.name_text()
            != backends[i].backend@.name_text()) {
        let k = backends[i].backend@.name_text();
        lemma_last_backend(s1, backends, i);
        assert(keys.backends[i] == k);
        assert(!stale.backends.contains(k));
        assert(found(s2.backends, k) == found(t4.backends, k));
        assert(found(t5.backends, k) == found(t4.backends, k));
        assert(found(t5.backends, k) == found(t6.backends, k));
    }
    if 0 <= i < policies.len() && (forall|j: int|
        i < j < policies.len() ==> (#[trigger] policies[j]).key@ != policies[i].key@) {
        let k = policies[i].key@;
        lemma_last_policy(s4, policies, i);
        assert(keys.policies[i] == k);
        assert(!stale.policies.contains(k));
        assert(found(s5.policies, k) == found(t3.policies, k));
        assert(found(t4.policies, k) == found(t3.policies, k));
        assert(found(t4.policies, k) == found(t6.policies, k));
    }
    if 0 <= i < binds.len() && (forall|j: int|
        i < j < binds.len() ==> (#[trigger] binds[j]).key != binds[i].key) {
        let k = binds[i].key;
        lemma_last_bind(s, binds, i);
        assert(keys.binds[i] == k);
        assert(!stale.binds.contains(k));
        assert(found(s1.binds, k) == found(s6.binds, k));
        assert(found(t1.binds, k) == found(s6.binds, k));
        assert(found(t1.binds, k) == found(t6.binds, k));
        let earlier = bind_texts(binds.take(i));
        if earlier.contains(k) {
            let j = earlier.index_of(k);
            assert(binds[j].key == k);
        }
        if exists|j: int| 0 <= j < i && (#[trigger] binds[j]).key == k {
            let j = choose|j: int| 0 <= j < i && (#[trigger] binds[j]).key == k;
            assert(earlier[j] == k);
        }
    }
}

/// Of several routes with one key under one owner, the last counts.
pub proof fn last_route_of_a_key_counts<R: Keyed>(routes: Seq<R>, i: int, k: Text)
    ensures
        0 <= i < routes.len() && routes[i].key_text() == k && (forall|j: int|
            i < j < routes.len() ==> (#[trigger] routes[j]).key_text() != k) ==> last_keyed(
            routes,
            k,
        ) == Some(Arc::new(routes[i])),
        (forall|j: int| 0 <= j < routes.len() ==> (#[trigger] routes[j]).key_text() != k)
            ==> last_keyed(routes, k) is None,
    decreases routes.len(),
{
    if routes.len() > 0 {
        let last = routes.len() - 1;
        if i < last {
            last_route_of_a_key_counts(routes.drop_last(), i, k);
        } else {
            last_route_of_a_key_counts(routes.drop_last(), -1, k);
        }
        assert(routes.last() == routes[last]);
    }
}

/// Of several lists of routes of one owner, the last one that has a route with the key counts.
pub proof fn last_list_of_an_owner_counts<R: Keyed>(
    entries: Seq<(String, Vec<R>)>,
    owner: Text,
    k: Text,
    i: int,
)
    ensures
        0 <= i < entries.len() && entries[i].0@ == owner && last_keyed(entries[i].1@, k) is Some && (
        forall|j: int|
            i < j < entries.len() && (#[trigger] entries[j]).0@ == owner ==> last_keyed(
                entries[j].1@,
                k,
            ) is None) ==> last_under(entries, owner, k) == last_keyed(entries[i].1@, k),
        (forall|j: int|
            0 <= j < entries.len() && (#[trigger] entries[j]).0@ == owner ==> last_keyed(
                entries[j].1@,
                k,
            ) is None) ==> last_under(entries, owner, k) is None,
    decreases entries.len(),
{
    if entries.len() > 0 {
        let last = entries.len() - 1;
        if i < last {
            last_list_of_an_owner_counts(entries.drop_last(), owner, k, i);
        } else {
            last_list_of_an_owner_counts(entries.drop_last(), owner, k, -1);
        }
        assert(entries.last() == entries[last]);
    }
}

/// The keys of a configuration are those of its binds, policies, backends, groups and routes, and
/// no others.
pub proof fn configuration_keys_are_those_of_its_items(
    binds: Seq<BindView>,
    listener_routes: Seq<(ListenerKey, Vec<Route>)>,
    listener_tcp_routes: Seq<(ListenerKey, Vec<TCPRoute>)>,
    policies: Seq<TargetedPolicy>,
    backends: Seq<BackendWithPolicies>,
    route_groups: Seq<(RouteGroupKey, Vec<Route>)>,
    k: Text,
)
    ensures
        ({
            let keys = local_keys(
                binds,
                listener_routes,
                listener_tcp_routes,
                policies,
                backends,
                route_groups,
            );
            &&& keys.binds.contains(k) <==> exists|i: int|
                0 <= i < binds.len() && (#[trigger] binds[i]).key == k
            &&& keys.policies.contains(k) <==> exists|i: int|
                0 <= i < policies.len() && (#[trigger] policies[i]).key@ == k
            &&& keys.backends.contains(k) <==> exists|i: int|
                0 <= i < backends.len() && (#[trigger] backends[i]).backend@.name_text() == k
            &&& keys.route_groups.contains(k) <==> exists|i: int|
                0 <= i < route_groups.len() && (#[trigger] route_groups[i]).0@ == k
            &&& keys.routes.contains(k) <==> exists|i: int, j: int|
                0 <= i < listener_routes.len() && 0 <= j < listener_routes[i].1@.len()
                    && #[trigger] listener_routes[i].1@[j].key@ == k
            &&& keys.tcp_routes.contains(k) <==> exists|i: int, j: int|
                0 <= i < listener_tcp_routes.len() && 0 <= j < listener_tcp_routes[i].1@.len()
                    && #[trigger] listener_tcp_routes[i].1@[j].key@ == k
        }),
{
    let keys = local_keys(
        binds,
        listener_routes,
        listener_tcp_routes,
        policies,
        backends,
        route_groups,
    );
    if keys.binds.contains(k) {
        assert(binds[keys.binds.index_of(k)].key == k);
    }
    if exists|i: int| 0 <= i < binds.len() && (#[trigger] binds[i]).key == k {
        let i = choose|i: int| 0 <= i < binds.len() && (#[trigger] binds[i]).key == k;
        assert(keys.binds[i] == k);
    }
    if keys.policies.contains(k) {
        assert(policies[keys.policies.index_of(k)].key@ == k);
    }
    if exists|i: int| 0 <= i < policies.len() && (#[trigger] policies[i]).key@ == k {
        let i = choose|i: int| 0 <= i < policies.len() && (#[trigger] policies[i]).key@ == k;
        assert(keys.policies[i] == k);
    }
    if keys.backends.contains(k) {
        assert(backends[keys.backends.index_of(k)].backend@.name_text() == k);
    }
    if exists|i: int|
        0 <= i < backends.len() && (#[trigger] backends[i]).backend@.name_text() == k {
        let i = choose|i: int|
            0 <= i < backends.len() && (#[trigger] backends[i]).backend@.name_text() == k;
        assert(keys.backends[i] == k);
    }
    if keys.route_groups.contains(k) {
        assert(route_groups[keys.route_groups.index_of(k)].0@ == k);
    }
    if exists|i: int| 0 <= i < route_groups.len() && (#[trigger] route_groups[i]).0@ == k {
        let i = choose|i: int| 0 <= i < route_groups.len() && (#[trigger] route_groups[i]).0@ == k;
        assert(keys.route_groups[i] == k);
    }
    lemma_listed_routes(listener_routes, k);
    lemma_listed_routes(listener_tcp_routes, k);
    if keys.routes.contains(k) {
        let (i, j) = choose|i: int, j: int|
            0 <= i < listener_routes.len() && 0 <= j < listener_routes[i].1@.len()
                && #[trigger] listener_routes[i].1@[j].key_text() == k;
        assert(listener_routes[i].1@[j].key@ == k);
    }
    if exists|i: int, j: int|
        0 <= i < listener_routes.len() && 0 <= j < listener_routes[i].1@.len()
            && #[trigger] listener_routes[i].1@[j].key@ == k {
        let (i, j) = choose|i: int, j: int|
            0 <= i < listener_routes.len() && 0 <= j < listener_routes[i].1@.len()
                && #[trigger] listener_routes[i].1@[j].key@ == k;
        assert(listener_routes[i].1@[j].key_text() == k);
    }
    if keys.tcp_routes.contains(k) {
        let (i, j) = choose|i: int, j: int|
            0 <= i < listener_tcp_routes.len() && 0 <= j < listener_tcp_routes[i].1@.len()
                && #[trigger] listener_tcp_routes[i].1@[j].key_text() == k;
        assert(listener_tcp_routes[i].1@[j].key@ == k);
    }
    if exists|i: int, j: int|
        0 <= i < listener_tcp_routes.len() && 0 <= j < listener_tcp_routes[i].1@.len()
            && #[trigger] listener_tcp_routes[i].1@[j].key@ == k {
        let (i, j) = choose|i: int, j: int|
            0 <= i < listener_tcp_routes.len() && 0 <= j < listener_tcp_routes[i].1@.len()
                && #[trigger] listener_tcp_routes[i].1@[j].key@ == k;
        assert(listener_tcp_routes[i].1@[j].key_text() == k);
    }
}

proof fn lemma_listed_routes<R: Keyed>(entries: Seq<(String, Vec<R>)>, k: Text)
    ensures
        all_route_texts(entries).contains(k) <==> exists|i: int, j: int|
            0 <= i < entries.len() && 0 <= j < entries[i].1@.len()
                && #[trigger] entries[i].1@[j].key_text() == k,
    decreases entries.len(),
{
    if entries.len() > 0 {
        let rest = entries.drop_last();
        let last = entries.len() - 1;
        let own = route_texts(entries[last].1@);
        let a = all_route_texts(rest);
        let all = all_route_texts(entries);
        lemma_listed_routes(rest, k);
        assert(all == a + own);
        if all.contains(k) {
            let n = all.index_of(k);
            if n < a.len() {
                assert(a[n] == k);
                let (i, j) = choose|i: int, j: int|
                    0 <= i < rest.len() && 0 <= j < rest[i].1@.len()
                        && #[trigger] rest[i].1@[j].key_text() == k;
                assert(entries[i].1@[j].key_text() == k);
            } else {
                assert(entries[last].1@[n - a.len()].key_text() == k);
            }
        }
        if exists|i: int, j: int|
            0 <= i < entries.len() && 0 <= j < entries[i].1@.len()
                && #[trigger] entries[i].1@[j].key_text() == k {
            let (i, j) = choose|i: int, j: int|
                0 <= i < entries.len() && 0 <= j < entries[i].1@.len()
                    && #[trigger] entries[i].1@[j].key_text() == k;
            if i < last {
                assert(rest[i].1@[j].key_text() == k);
                assert(all[a.index_of(k)] == k);
            } else {
                assert(own[j] == k);
                assert(all[a.len() + j] == k);
            }
        }
    } else {
        assert(!all_route_texts(entries).contains(k));
    }
}

} // verus!
