//! What holds of every configuration that is accepted.

use std::sync::Arc;

use vstd::prelude::*;

use crate::local::backends::{
    local_key, local_keys_name_local_backends, local_name_of, LocalBackend,
};
use crate::local::conditional::{conditional_refusal, LocalConditionalPolicy};
use crate::local::config::GatewayConfig;
use crate::local::error::{first_refusal, gathered, one, Loaded};
use crate::local::frontend::{frontend_policy, tracing_policy, LocalFrontendPolicies};
use crate::local::llm::{
    model_backend, model_backend_key, model_backend_rules, model_request_headers, model_route,
    model_route_key, MODEL_NAME_HEADER,
};
use crate::local::models::LocalLLMModels;
use crate::local::routes::{
    backend_key_of, route_backend_made, route_backend_refusals, route_backend_target, route_key_of,
    route_name_of, tcp_backend_made, LocalRoute, LocalRouteName, LocalTCPRoute,
};
use crate::text::{
    decimal, lemma_decimal_digits, lemma_decimal_injective, lemma_padded, lemma_padded_order,
    lemma_text_order, padded_decimal, text_le, Text,
};
use crate::types::agent::{
    BackendReferenceView, ListenerTargetView, RouteBackendTargetView, SimpleBackendReferenceView,
    TargetedPolicyView,
};
use crate::types::frontend::FrontendPolicy;
use crate::types::policy::{Nanos, PolicyBody};
use crate::types::traffic::{BackendTrafficPolicyView, PolicyTypeView};

verus! {

// ---------------------------------------------------------------------------------------------
// Conditional policies
// ---------------------------------------------------------------------------------------------

/// Of conditional policies that are accepted each can apply: there is at least one, and only the
/// last may be without a condition.
pub proof fn only_the_last_is_unconditional<T>(policies: Seq<LocalConditionalPolicy<T>>, i: int)
    requires
        conditional_refusal(policies) is None,
        0 <= i < policies.len(),
        policies[i].condition is None,
    ensures
        i == policies.len() - 1,
        1 <= policies.len() <= 64,
{
}

// ---------------------------------------------------------------------------------------------
// References
// ---------------------------------------------------------------------------------------------

proof fn lemma_gathered_holds<T, V>(
    items: Seq<T>,
    values: spec_fn(int, T) -> Seq<V>,
    i: int,
    k: int,
) -> (j: int)
    requires
        0 <= i < items.len(),
        0 <= k < values(i, items[i]).len(),
    ensures
        0 <= j < gathered(items, values).len(),
        gathered(items, values)[j] == values(i, items[i])[k],
    decreases items.len(),
{
    let rest = gathered(items.drop_last(), values);
    if i == items.len() - 1 {
        rest.len() + k
    } else {
        let j = lemma_gathered_holds(items.drop_last(), values, i, k);
        assert(gathered(items, values)[j] == rest[j]);
        j
    }
}

/// Whether a backend is written in place: not a reference to something that is defined elsewhere.
pub open spec fn in_place(b: LocalBackend) -> bool {
    b is Opaque || b is Dynamic || b is MCP || b is AI || b is Aws
}

/// A backend that is written in place is made under the name that it is given, as the last.
proof fn lemma_made_under_name(
    b: LocalBackend,
    name: Text,
    default_tls: Loaded<PolicyBody>,
    session_ttl: Nanos,
)
    requires
        in_place(b),
    ensures
        b.backends(local_name_of(name), default_tls, session_ttl).len() > 0,
        b.backends(
            local_name_of(name),
            default_tls,
            session_ttl,
        ).last().backend.name_text() == local_key(name),
{
    local_keys_name_local_backends(name);
}

/// A route finds the backends that it writes in place: each is made under the key by which the
/// route refers to it.
pub proof fn routes_find_their_backends(
    lr: LocalRoute,
    config: GatewayConfig,
    idx: int,
    listener_key: Text,
    i: int,
) -> (j: int)
    requires
        0 <= i < lr.backends@.len(),
        in_place(lr.backends@[i].backend),
    ensures
        0 <= j < lr.made(config, idx, listener_key).len(),
        lr.route(config, idx, listener_key).backends[i].target == RouteBackendTargetView::Backend(
            BackendReferenceView::Backend(
                lr.made(config, idx, listener_key)[j].backend.name_text(),
            ),
        ),
{
    let key = lr.key(idx, listener_key);
    let name = backend_key_of(key, i);
    let b = lr.backends@[i];
    let made = route_backend_made(config, key);
    lemma_made_under_name(b.backend, name, config.default_backend_tls, config.mcp_session_ttl);
    let own = made(i, b);
    let j = lemma_gathered_holds(lr.backends@, made, i, own.len() - 1);
    assert(lr.route(config, idx, listener_key).backends[i].target == route_backend_target(
        key,
        i,
        b.backend,
    ));
    j
}

/// A TCP route finds the backends that it writes in place: each is made under the key by which the
/// route refers to it.
pub proof fn tcp_routes_find_their_backends(
    lr: LocalTCPRoute,
    idx: int,
    listener_key: Text,
    i: int,
) -> (j: int)
    requires
        0 <= i < lr.backends@.len(),
        lr.backends@[i].backend is Opaque,
    ensures
        0 <= j < lr.made(idx, listener_key).len(),
        lr.route(idx, listener_key).backends[i].backend == SimpleBackendReferenceView::Backend(
            lr.made(idx, listener_key)[j].backend.name_text(),
        ),
{
    let key = lr.key(idx, listener_key);
    local_keys_name_local_backends(backend_key_of(key, i));
    lemma_gathered_holds(lr.backends@, tcp_backend_made(key), i, 0)
}

/// The route of a model finds the backend of the model.
pub proof fn model_routes_find_their_backends(
    m: LocalLLMModels,
    idx: int,
    default_tls: Loaded<PolicyBody>,
)
    ensures
        model_route(m, idx).backends.len() == 1,
        model_route(m, idx).backends[0].target == RouteBackendTargetView::Backend(
            BackendReferenceView::Backend(
                model_backend(m, idx, default_tls).backend.name_text(),
            ),
        ),
{
    local_keys_name_local_backends(model_backend_key(m.name@, idx));
}

/// Routing by an endpoint picker stands on services only.
pub proof fn inference_routing_stands_on_services(
    lr: LocalRoute,
    config: GatewayConfig,
    idx: int,
    listener_key: Text,
    i: int,
)
    requires
        lr.refusal(config, idx, listener_key) is None,
        0 <= i < lr.backends@.len(),
        lr.backends@[i].policies matches Some(p) && p.inference_routing is Some,
    ensures
        lr.backends@[i].backend is Service,
{
    lemma_no_refusal(lr.backends@, route_backend_refusals(config.default_backend_tls), i);
}

proof fn lemma_no_refusal<T>(items: Seq<T>, refusal: spec_fn(int, T) -> Option<Text>, i: int)
    requires
        first_refusal(items, refusal) is None,
        0 <= i < items.len(),
    ensures
        refusal(i, items[i]) is None,
    decreases items.len(),
{
    if i < items.len() - 1 {
        lemma_no_refusal(items.drop_last(), refusal, i);
    }
}

// ---------------------------------------------------------------------------------------------
// Keys
// ---------------------------------------------------------------------------------------------

/// Backends at different places of a route are made under different names.
pub proof fn backend_names_differ(route_key: Text, i: int, j: int)
    requires
        0 <= i,
        0 <= j,
        i != j,
    ensures
        backend_key_of(route_key, i) != backend_key_of(route_key, j),
{
    let prefix = route_key + "/backend"@;
    if backend_key_of(route_key, i) == backend_key_of(route_key, j) {
        let a = prefix + decimal(i as nat);
        let b = prefix + decimal(j as nat);
        assert(a.skip(prefix.len() as int) =~= decimal(i as nat));
        assert(b.skip(prefix.len() as int) =~= decimal(j as nat));
        lemma_decimal_injective(i as nat, j as nat);
    }
}

/// Routes of one listener that have no name of their own, in one namespace, have different keys.
pub proof fn unnamed_routes_differ(
    a: LocalRouteName,
    b: LocalRouteName,
    prefix: Text,
    listener_key: Text,
    i: int,
    j: int,
)
    requires
        0 <= i,
        0 <= j,
        i != j,
        a.name is None,
        b.name is None,
        route_name_of(a, prefix, i).namespace == route_name_of(b, prefix, j).namespace,
    ensures
        route_key_of(listener_key, route_name_of(a, prefix, i)) != route_key_of(
            listener_key,
            route_name_of(b, prefix, j),
        ),
{
    let namespace = route_name_of(a, prefix, i).namespace;
    let start = listener_key + "/"@ + namespace + "/"@;
    let ka = route_key_of(listener_key, route_name_of(a, prefix, i));
    let kb = route_key_of(listener_key, route_name_of(b, prefix, j));
    if ka == kb {
        assert(ka =~= start + prefix + decimal(i as nat));
        assert(kb =~= start + prefix + decimal(j as nat));
        let n = start.len() + prefix.len();
        assert((start + prefix + decimal(i as nat)).skip(n as int) =~= decimal(i as nat));
        assert((start + prefix + decimal(j as nat)).skip(n as int) =~= decimal(j as nat));
        lemma_decimal_injective(i as nat, j as nat);
    }
}

/// Models at different places of the list have backends of different names, even if they are the
/// same model.
pub proof fn model_backends_differ(a: Text, b: Text, i: int, j: int)
    requires
        0 <= i,
        0 <= j,
        i != j,
    ensures
        model_backend_key(a, i) != model_backend_key(b, j),
{
    let di = decimal(i as nat);
    let dj = decimal(j as nat);
    let ka = model_backend_key(a, i);
    let kb = model_backend_key(b, j);
    reveal_strlit(":");
    if ka == kb {
        let pa = "llm:model:"@ + a + ":"@;
        let pb = "llm:model:"@ + b + ":"@;
        assert(ka =~= pa + di);
        assert(kb =~= pb + dj);
        lemma_decimal_digits(i as nat);
        lemma_decimal_digits(j as nat);
        assert(pa.last() == ':');
        assert(pb.last() == ':');
        if pa.len() < pb.len() {
            assert((pb + dj)[pb.len() - 1] == ':');
            assert((pa + di)[pb.len() - 1] == di[pb.len() - 1 - pa.len()]);
        } else if pb.len() < pa.len() {
            assert((pa + di)[pa.len() - 1] == ':');
            assert((pb + dj)[pa.len() - 1] == dj[pa.len() - 1 - pb.len()]);
        } else {
            assert((pa + di).skip(pa.len() as int) =~= di);
            assert((pb + dj).skip(pb.len() as int) =~= dj);
            lemma_decimal_injective(i as nat, j as nat);
        }
    }
}

/// Of the routes of two models the one that is listed first comes first in the order of keys, as
/// long as there are no more than a million models. So of routes that match equally well the one
/// that is listed first is preferred.
pub proof fn models_rank_by_their_place(a: Text, b: Text, i: int, j: int)
    requires
        0 <= i < j < 1000000,
    ensures
        text_le(model_route_key(a, i), model_route_key(b, j)),
        !text_le(model_route_key(b, j), model_route_key(a, i)),
{
    let ka = model_route_key(a, i);
    let kb = model_route_key(b, j);
    let prefix = "llm:model:"@;
    let pi = padded_decimal(i as nat, 6);
    let pj = padded_decimal(j as nat, 6);
    let k = lemma_padded_order(i as nat, j as nat);
    lemma_padded(i as nat);
    lemma_padded(j as nat);
    let n = prefix.len() + k;
    assert(ka[n] == pi[k]);
    assert(kb[n] == pj[k]);
    assert(ka.take(n) =~= prefix + pi.take(k));
    assert(kb.take(n) =~= prefix + pj.take(k));
    lemma_text_order(ka, kb, n);
}

/// The place of a policy among the policies of accepted connections.
spec fn place(p: TargetedPolicyView) -> int {
    match p.policy {
        PolicyTypeView::Frontend(FrontendPolicy::HTTP(_)) => 0,
        PolicyTypeView::Frontend(FrontendPolicy::TLS(_)) => 1,
        PolicyTypeView::Frontend(FrontendPolicy::TCP(_)) => 2,
        PolicyTypeView::Frontend(FrontendPolicy::NetworkAuthorization(_)) => 3,
        PolicyTypeView::Frontend(FrontendPolicy::Proxy(_)) => 4,
        PolicyTypeView::Frontend(FrontendPolicy::AccessLog(_)) => 5,
        _ => 6,
    }
}

/// The name under which the policy at a place is attached.
spec fn name_at(place: int) -> Text {
    if place == 0 {
        "http"@
    } else if place == 1 {
        "tls"@
    } else if place == 2 {
        "tcp"@
    } else if place == 3 {
        "networkAuthorization"@
    } else if place == 4 {
        "proxy"@
    } else if place == 5 {
        "accessLog"@
    } else {
        "tracing"@
    }
}

/// Whether policies stand in the order of their places, each under the name of its place.
spec fn in_order(policies: Seq<TargetedPolicyView>, end: int) -> bool {
    &&& forall|i: int|
        0 <= i < policies.len() ==> {
            let p = #[trigger] policies[i];
            &&& 0 <= place(p) < end
            &&& p.key == "frontend/"@ + name_at(place(p))
        }
    &&& forall|i: int, j: int|
        0 <= i < j < policies.len() ==> place(#[trigger] policies[i]) < place(
            #[trigger] policies[j],
        )
}

proof fn lemma_in_order(
    policies: Seq<TargetedPolicyView>,
    next: Option<TargetedPolicyView>,
    end: int,
)
    requires
        end >= 0,
        in_order(policies, end),
        next matches Some(p) ==> place(p) == end && p.key == "frontend/"@ + name_at(end),
    ensures
        in_order(policies + one(next), end + 1),
{
}

proof fn lemma_names_differ(a: int, b: int)
    requires
        0 <= a < b < 7,
    ensures
        "frontend/"@ + name_at(a) != "frontend/"@ + name_at(b),
{
    let prefix = "frontend/"@;
    reveal_strlit("http");
    reveal_strlit("tls");
    reveal_strlit("tcp");
    reveal_strlit("networkAuthorization");
    reveal_strlit("proxy");
    reveal_strlit("accessLog");
    reveal_strlit("tracing");
    assert((prefix + name_at(a)).skip(prefix.len() as int) =~= name_at(a));
    assert((prefix + name_at(b)).skip(prefix.len() as int) =~= name_at(b));
    assert("tls"@[1] == 'l' && "tcp"@[1] == 'c');
}

/// The policies of accepted connections are attached under different keys.
pub proof fn frontend_keys_differ(
    pol: LocalFrontendPolicies,
    gateway: ListenerTargetView,
    i: int,
    j: int,
)
    requires
        0 <= i < j < pol.attached(gateway).len(),
    ensures
        pol.attached(gateway)[i].key != pol.attached(gateway)[j].key,
{
    let s0 = Seq::<TargetedPolicyView>::empty();
    let o0 = match pol.http {
        Some(p) => Some(frontend_policy("http"@, gateway, FrontendPolicy::HTTP(p))),
        None => None,
    };
    lemma_in_order(s0, o0, 0);
    let s1 = s0 + one(o0);
    let o1 = match pol.tls {
        Some(p) => Some(frontend_policy("tls"@, gateway, FrontendPolicy::TLS(p))),
        None => None,
    };
    lemma_in_order(s1, o1, 1);
    let s2 = s1 + one(o1);
    let o2 = match pol.tcp {
        Some(p) => Some(frontend_policy("tcp"@, gateway, FrontendPolicy::TCP(p))),
        None => None,
    };
    lemma_in_order(s2, o2, 2);
    let s3 = s2 + one(o2);
    let o3 = match pol.network_authorization {
        Some(p) => Some(
            frontend_policy(
                "networkAuthorization"@,
                gateway,
                FrontendPolicy::NetworkAuthorization(p),
            ),
        ),
        None => None,
    };
    lemma_in_order(s3, o3, 3);
    let s4 = s3 + one(o3);
    let o4 = match pol.proxy_protocol {
        Some(p) => Some(frontend_policy("proxy"@, gateway, FrontendPolicy::Proxy(p))),
        None => None,
    };
    lemma_in_order(s4, o4, 4);
    let s5 = s4 + one(o4);
    let o5 = match pol.access_log {
        Some(p) => Some(
            frontend_policy(
                "accessLog"@,
                gateway,
                FrontendPolicy::AccessLog(Arc::new(p.initialized())),
            ),
        ),
        None => None,
    };
    lemma_in_order(s5, o5, 5);
    let s6 = s5 + one(o5);
    let o6 = match pol.tracing {
        Some(p) => Some(
            frontend_policy(
                "tracing"@,
                gateway,
                FrontendPolicy::Tracing(Arc::new(tracing_policy(p))),
            ),
        ),
        None => None,
    };
    lemma_in_order(s6, o6, 6);
    let s7 = s6 + one(o6);
    assert(s7 == pol.attached(gateway));
    let policies = pol.attached(gateway);
    lemma_names_differ(place(policies[i]), place(policies[j]));
}

// ---------------------------------------------------------------------------------------------
// Models
// ---------------------------------------------------------------------------------------------

/// The header that holds the model of a request while the gateway chooses a route is not sent on:
/// the backend of each model drops it.
pub proof fn model_header_is_dropped(m: LocalLLMModels, default_tls: Loaded<PolicyBody>)
    ensures
        model_request_headers(m).remove.contains(MODEL_NAME_HEADER@),
        model_backend_rules(m, default_tls).contains(
            BackendTrafficPolicyView::RequestHeaderModifier(model_request_headers(m)),
        ),
{
    let headers = model_request_headers(m);
    let n = headers.remove.len() - 1;
    assert(headers.remove[n] == MODEL_NAME_HEADER@);
    let rules = model_backend_rules(m, default_tls);
    let k = one(
        match crate::local::error::loaded(m.tls(default_tls)) {
            Some(p) => Some(crate::types::traffic::BackendTrafficPolicy::BackendTLS(p)@),
            None => None,
        },
    ).len() + (if m.auth is Some {
        1int
    } else {
        0int
    }) + (if m.backend_tunnel is Some {
        1int
    } else {
        0int
    });
    assert(rules[k] == BackendTrafficPolicyView::RequestHeaderModifier(headers));
}

} // verus!
