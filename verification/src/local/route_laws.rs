//! Laws of the routes that a configuration writes: what is made of each part of them.

use vstd::prelude::*;

use crate::local::backends::LocalBackend;
use crate::local::backends::SimpleLocalBackend;
use crate::local::config::GatewayConfig;
use crate::local::error::{first_refusal, gathered, load_refusal, loaded, Loaded};
use crate::local::policies::{
    backend_policies, backend_refusal, inference_refusal, InferenceRoutingScope,
};
use crate::local::routes::{
    route_backend_refusals, tcp_backend_refusals, LocalRoute, LocalRouteBackend, LocalTCPRoute,
    LocalTCPRouteBackend,
};
use crate::text::{decimal, views, Text};
use crate::types::agent::{
    BackendReferenceView, BackendView, RouteBackendTargetView, SimpleBackendReferenceView,
};
use crate::types::policy::PolicyIdView;
use crate::types::traffic::{BackendTrafficPolicy, BackendTrafficPolicyView};

verus! {

// ---------------------------------------------------------------------------------------------
// Lists
// ---------------------------------------------------------------------------------------------

/// A list is refused for the first of its items that is refused, and for that item's reason. If no
/// item is refused the list is not.
pub proof fn first_refused_item_decides<T>(
    items: Seq<T>,
    refusal: spec_fn(int, T) -> Option<Text>,
    i: int,
)
    ensures
        0 <= i < items.len() && refusal(i, items[i]) is Some && (forall|j: int|
            0 <= j < i ==> refusal(j, #[trigger] items[j]) is None) ==> first_refusal(
            items,
            refusal,
        ) == refusal(i, items[i]),
        (forall|j: int| 0 <= j < items.len() ==> refusal(j, #[trigger] items[j]) is None)
            ==> first_refusal(items, refusal) is None,
    decreases items.len(),
{
    if items.len() > 0 {
        let rest = items.drop_last();
        let last = items.len() - 1;
        first_refused_item_decides(rest, refusal, i);
        assert(forall|j: int| 0 <= j < last ==> #[trigger] rest[j] == items[j]);
        assert(items.last() == items[last]);
    }
}

/// What the items of a list come to stands in the order of the items: that of a further item comes
/// last.
pub proof fn items_are_gathered_in_order<T, V>(
    items: Seq<T>,
    item: T,
    values: spec_fn(int, T) -> Seq<V>,
)
    ensures
        gathered(Seq::<T>::empty(), values) == Seq::<V>::empty(),
        gathered(items.push(item), values) == gathered(items, values) + values(
            items.len() as int,
            item,
        ),
{
    assert(items.push(item).drop_last() =~= items);
}

/// A setting that could not be loaded is refused for that reason; one that was loaded, or was not
/// asked for, is taken as it is.
pub proof fn settings_are_taken_as_loaded<T>(value: Option<Loaded<T>>)
    ensures
        load_refusal(value) == (match value {
            Some(Err(e)) => Some(e@),
            _ => None,
        }),
        value is None ==> loaded(value) is None,
        value matches Some(Ok(v)) ==> loaded(value) == Some(v),
{
}

// ---------------------------------------------------------------------------------------------
// HTTP routes
// ---------------------------------------------------------------------------------------------

/// The route that is made of a written one has its host names and matches, in order, the name that
/// is written or one made from its place, and a key made of the listener, the namespace and the
/// name. It belongs to no service.
pub proof fn route_has_what_is_written(
    lr: LocalRoute,
    config: GatewayConfig,
    idx: int,
    listener_key: Text,
    i: int,
)
    ensures
        ({
            let r = lr.route(config, idx, listener_key);
            &&& r.hostnames.len() == lr.hostnames@.len()
            &&& 0 <= i < lr.hostnames@.len() ==> r.hostnames[i] == lr.hostnames@[i]@
            &&& r.matches.len() == lr.matches@.len()
            &&& 0 <= i < lr.matches@.len() ==> r.matches[i] == lr.matches@[i]@
            &&& r.service_key is None
            &&& r.name.name == (match lr.name.name {
                Some(n) => n@,
                None => "route"@ + decimal(idx as nat),
            })
            &&& r.name.namespace == (match lr.name.namespace {
                Some(n) => n@,
                None => "default"@,
            })
            &&& r.name.rule_name is None
            &&& r.name.kind is None
            &&& r.key == listener_key + "/"@ + r.name.namespace + "/"@ + r.name.name
        }),
{
}

/// The policies of a written route run on its requests: those that are set, with the key of the
/// route as what they belong to. A route without policies has none.
pub proof fn route_has_its_own_policies(
    lr: LocalRoute,
    config: GatewayConfig,
    idx: int,
    listener_key: Text,
)
    ensures
        ({
            let r = lr.route(config, idx, listener_key);
            &&& lr.policies is None ==> r.inline_policies.len() == 0
            &&& lr.policies matches Some(p) ==> r.inline_policies == p.route_rules(
                Some(config.context_of(PolicyIdView::Route(r.key))),
            )
        }),
{
}

/// The route refers to its backends in order, each with its weight. A group, a service or a backend
/// of a name is referred to as such; a backend that is written in place is referred to by the key
/// of the route and its place.
pub proof fn route_refers_to_its_backends(
    lr: LocalRoute,
    config: GatewayConfig,
    idx: int,
    listener_key: Text,
    i: int,
)
    requires
        0 <= i < lr.backends@.len(),
    ensures
        ({
            let r = lr.route(config, idx, listener_key);
            let b = lr.backends@[i];
            &&& r.backends.len() == lr.backends@.len()
            &&& r.backends[i].weight == b.weight
            &&& r.backends[i].target == (match b.backend {
                LocalBackend::RouteGroup(rg) => RouteBackendTargetView::RouteGroup(rg@),
                LocalBackend::Service { name, port } => RouteBackendTargetView::Backend(
                    BackendReferenceView::Service { name: name@, port },
                ),
                LocalBackend::Backend(n) => RouteBackendTargetView::Backend(
                    BackendReferenceView::Backend(n@),
                ),
                LocalBackend::Invalid => RouteBackendTargetView::Backend(
                    BackendReferenceView::Invalid,
                ),
                _ => RouteBackendTargetView::Backend(
                    BackendReferenceView::Backend(
                        "/"@ + (r.key + "/backend"@ + decimal(i as nat)),
                    ),
                ),
            })
        }),
{
}

/// A reference of a route to a backend has the policies of that backend first, in order, and then
/// those that the route gives to all of its backends.
pub proof fn backend_policies_come_before_those_of_the_route(
    lr: LocalRoute,
    config: GatewayConfig,
    idx: int,
    listener_key: Text,
    i: int,
    j: int,
)
    requires
        0 <= i < lr.backends@.len(),
    ensures
        ({
            let inline = lr.route(config, idx, listener_key).backends[i].inline_policies;
            let own = backend_policies(lr.backends@[i].policies);
            let shared: Seq<BackendTrafficPolicy> = match lr.policies {
                Some(p) => p.backend_rules(),
                None => Seq::empty(),
            };
            &&& inline.len() == own.len() + shared.len()
            &&& 0 <= j < own.len() ==> inline[j] == own[j]@
            &&& 0 <= j < shared.len() ==> inline[own.len() + j] == shared[j]@
        }),
{
}

/// What a route makes of the backends that it writes in place: a further backend adds, behind the
/// others, what that backend comes to under a name made of the key of the route and its place.
pub proof fn further_backend_of_a_route_is_made_last(
    lr: LocalRoute,
    longer: LocalRoute,
    b: LocalRouteBackend,
    config: GatewayConfig,
    idx: int,
    listener_key: Text,
)
    requires
        longer.backends@ == lr.backends@.push(b),
        longer.name == lr.name,
    ensures
        longer.made(config, idx, listener_key) == lr.made(config, idx, listener_key)
            + b.backend.backends(
            crate::types::agent::ResourceNameView {
                name: lr.route(config, idx, listener_key).key + "/backend"@ + decimal(
                    lr.backends@.len(),
                ),
                namespace: Seq::empty(),
            },
            config.default_backend_tls,
            config.mcp_session_ttl,
        ),
        lr.backends@.len() == 0 ==> lr.made(config, idx, listener_key).len() == 0,
{
    assert(longer.backends@.drop_last() =~= lr.backends@);
}

/// A route is refused for the first of its backends that is refused: because inference routing is
/// set on a backend that is no service, because of its policies, or because of what it is. If no
/// backend is, it is refused for its policies.
pub proof fn routes_are_refused_for_their_parts(
    lr: LocalRoute,
    config: GatewayConfig,
    idx: int,
    listener_key: Text,
    i: int,
    b: LocalRouteBackend,
)
    ensures
        ({
            let refused = |n: int, x: LocalRouteBackend|
                match inference_refusal(
                    x.policies,
                    if x.backend is Service {
                        InferenceRoutingScope::ServiceRouteBackend
                    } else {
                        InferenceRoutingScope::NonServiceRouteBackend
                    },
                ) {
                    Some(e) => Some(e),
                    None => match backend_refusal(x.policies) {
                        Some(e) => Some(e),
                        None => x.backend.refusal(config.default_backend_tls),
                    },
                };
            &&& route_backend_refusals(config.default_backend_tls)(i, b) == refused(i, b)
            &&& first_refusal(lr.backends@, refused) is Some ==> lr.refusal(
                config,
                idx,
                listener_key,
            ) == first_refusal(lr.backends@, refused)
            &&& first_refusal(lr.backends@, refused) is None ==> lr.refusal(
                config,
                idx,
                listener_key,
            ) == (match lr.policies {
                Some(p) => p.refusal(
                    Some(
                        config.context_of(
                            PolicyIdView::Route(lr.route(config, idx, listener_key).key),
                        ),
                    ),
                ),
                None => None,
            })
        }),
{
    let refused = |n: int, x: LocalRouteBackend|
        match inference_refusal(
            x.policies,
            if x.backend is Service {
                InferenceRoutingScope::ServiceRouteBackend
            } else {
                InferenceRoutingScope::NonServiceRouteBackend
            },
        ) {
            Some(e) => Some(e),
            None => match backend_refusal(x.policies) {
                Some(e) => Some(e),
                None => x.backend.refusal(config.default_backend_tls),
            },
        };
    assert(refused =~= route_backend_refusals(config.default_backend_tls));
}

// ---------------------------------------------------------------------------------------------
// TCP routes
// ---------------------------------------------------------------------------------------------

/// The TCP route that is made of a written one has its host names, in order, the name that is
/// written or one made from its place, and a key made of the listener, the namespace and the name.
pub proof fn tcp_route_has_what_is_written(lr: LocalTCPRoute, idx: int, listener_key: Text, i: int)
    ensures
        ({
            let r = lr.route(idx, listener_key);
            &&& r.hostnames.len() == lr.hostnames@.len()
            &&& 0 <= i < lr.hostnames@.len() ==> r.hostnames[i] == lr.hostnames@[i]@
            &&& r.service_key is None
            &&& r.name.name == (match lr.name.name {
                Some(n) => n@,
                None => "tcproute"@ + decimal(idx as nat),
            })
            &&& r.name.namespace == (match lr.name.namespace {
                Some(n) => n@,
                None => "default"@,
            })
            &&& r.name.rule_name is None
            &&& r.name.kind is None
            &&& r.key == listener_key + "/"@ + r.name.namespace + "/"@ + r.name.name
        }),
{
}

/// A TCP route refers to its backends in order, each with its weight and with the TLS settings of
/// the route, if there are any. A service or a backend of a name is referred to as such; one that
/// is written in place is referred to by the key of the route and its place.
pub proof fn tcp_route_refers_to_its_backends(
    lr: LocalTCPRoute,
    idx: int,
    listener_key: Text,
    i: int,
)
    requires
        0 <= i < lr.backends@.len(),
        lr.refusal() is None,
    ensures
        ({
            let r = lr.route(idx, listener_key);
            let b = lr.backends@[i];
            let tls = match lr.policies {
                Some(p) => p.backend_tls,
                None => None,
            };
            &&& r.backends.len() == lr.backends@.len()
            &&& r.backends[i].weight == b.weight
            &&& r.backends[i].backend == (match b.backend {
                SimpleLocalBackend::Service { name, port } => SimpleBackendReferenceView::Service {
                    name: name@,
                    port,
                },
                SimpleLocalBackend::Backend(n) => SimpleBackendReferenceView::Backend(n@),
                SimpleLocalBackend::Invalid => SimpleBackendReferenceView::Invalid,
                SimpleLocalBackend::Opaque(_) => SimpleBackendReferenceView::Backend(
                    "/"@ + (r.key + "/backend"@ + decimal(i as nat)),
                ),
            })
            &&& tls is None ==> r.backends[i].inline_policies.len() == 0
            &&& tls matches Some(t) ==> t is Ok && r.backends[i].inline_policies.len() == 1
                && r.backends[i].inline_policies[0] == BackendTrafficPolicy::BackendTLS(t->Ok_0)@
        }),
{
}

/// What a TCP route makes of a backend that it writes in place: one backend with the policies of
/// that backend, under a name made of the key of the route and its place. One that refers to a
/// service or to a backend of a name makes nothing, an invalid one makes an invalid backend without
/// policies.
pub proof fn further_backend_of_a_tcp_route_is_made_last(
    lr: LocalTCPRoute,
    longer: LocalTCPRoute,
    b: LocalTCPRouteBackend,
    idx: int,
    listener_key: Text,
)
    requires
        longer.backends@ == lr.backends@.push(b),
        longer.name == lr.name,
    ensures
        ({
            let before = lr.made(idx, listener_key);
            let after = longer.made(idx, listener_key);
            let key = lr.route(idx, listener_key).key + "/backend"@ + decimal(lr.backends@.len());
            match b.backend {
                SimpleLocalBackend::Service { .. } => after == before,
                SimpleLocalBackend::Backend(_) => after == before,
                SimpleLocalBackend::Invalid => {
                    &&& after.len() == before.len() + 1
                    &&& after.drop_last() == before
                    &&& after.last().backend is Invalid
                    &&& after.last().inline_policies.len() == 0
                },
                SimpleLocalBackend::Opaque(t) => {
                    &&& after.len() == before.len() + 1
                    &&& after.drop_last() == before
                    &&& after.last().backend == BackendView::Opaque(
                        crate::types::agent::ResourceNameView {
                            name: key,
                            namespace: Seq::empty(),
                        },
                        t@,
                    )
                    &&& after.last().inline_policies == (match b.policies {
                        Some(p) => views(p.policies()),
                        None => Seq::<BackendTrafficPolicyView>::empty(),
                    })
                },
            }
        }),
        lr.backends@.len() == 0 ==> lr.made(idx, listener_key).len() == 0,
{
    assert(longer.backends@.drop_last() =~= lr.backends@);
    let before = lr.made(idx, listener_key);
    let after = longer.made(idx, listener_key);
    match b.backend {
        SimpleLocalBackend::Service { .. } => {
            assert(after =~= before);
        },
        SimpleLocalBackend::Backend(_) => {
            assert(after =~= before);
        },
        _ => {
            assert(after.drop_last() =~= before);
        },
    }
    assert(views(Seq::<BackendTrafficPolicy>::empty()) =~= Seq::empty());
}

/// A TCP route is refused for the first of its backends whose TLS settings could not be loaded, and
/// else for its own, if some backend gets them.
pub proof fn tcp_routes_are_refused_for_their_tls(lr: LocalTCPRoute, i: int, b: LocalTCPRouteBackend)
    ensures
        tcp_backend_refusals()(i, b) == (match b.policies {
            Some(p) => match p.backend_tls {
                Some(Err(e)) => Some(e@),
                _ => None,
            },
            None => None,
        }),
        first_refusal(lr.backends@, tcp_backend_refusals()) is Some ==> lr.refusal()
            == first_refusal(lr.backends@, tcp_backend_refusals()),
        first_refusal(lr.backends@, tcp_backend_refusals()) is None ==> lr.refusal() == (
        match lr.policies {
            Some(p) => match p.backend_tls {
                Some(Err(e)) => if lr.backends@.len() > 0 {
                    Some(e@)
                } else {
                    None
                },
                _ => None,
            },
            None => None,
        }),
{
}

} // verus!
