//! Laws of which policies are in force: what each of them comes from, level by level.

use std::sync::Arc;

use vstd::prelude::*;

use crate::keyed::{lemma_without, without};
use crate::store::model::{
    before_routing, distinct, gather, keys_at, lemma_gather_concat, on_backends, on_frontends,
    on_routes, RoutePathView, StoreView,
};
use crate::store::policies::{
    all_registered, frontend_log_expressions, merged, BackendPolicies, FrontendPolicesView,
    GatewayPolicies, PolicyRef, RoutePolicies,
};
use crate::store::selection::{
    authorization_rules, backend_effective, backend_kind, backend_policies_of, backend_takes_effect,
    earlier_rules_take_precedence, effective, first_backend_rule_takes_effect,
    first_rule_takes_effect, gateway_policies_of, mcp_authorization_rules,
    no_backend_rule_takes_effect, no_rule_takes_effect, route_policies_of, takes_effect,
    traffic_kind, BackendKind, TrafficKind,
};
use crate::text::Text;
use crate::types::agent::{
    ListenerNameView, ListenerTargetView, NamespacedHostnameView, PolicyTargetView, RouteNameView,
    TargetedPolicy,
};
use crate::types::frontend::{field_expressions, FrontendPolicy};
use crate::types::policy::{first_of, Expression, RuleSet};
use crate::types::policy::PolicyExpressions;
use crate::types::traffic::{BackendTrafficPolicy, PolicyPhase, PolicyType, TrafficPolicy};

verus! {

/// Each policy of a request on its route is that of the first of the rules that is of its kind and
/// sets something.
#[verifier::rlimit(60)]
#[verifier::spinoff_prover]
pub proof fn first_route_rules_fill_the_policies(
    pol: RoutePolicies,
    rules: Seq<TrafficPolicy>,
    i: int,
)
    requires
        route_policies_of(pol, rules),
        0 <= i < rules.len(),
    ensures
        rules[i] matches TrafficPolicy::LocalRateLimit(p) ==> (!(p is Unset) && (forall|j: int|
            0 <= j < i ==> ((#[trigger] rules[j]) matches TrafficPolicy::LocalRateLimit(q)
                ==> q is Unset)) ==> pol.local_rate_limit == p),
        rules[i] matches TrafficPolicy::ExtAuthz(p) ==> (!(p is Unset) && (forall|j: int|
            0 <= j < i ==> ((#[trigger] rules[j]) matches TrafficPolicy::ExtAuthz(q)
                ==> q is Unset)) ==> pol.ext_authz == p),
        rules[i] matches TrafficPolicy::ExtProc(p) ==> (!(p is Unset) && (forall|j: int|
            0 <= j < i ==> ((#[trigger] rules[j]) matches TrafficPolicy::ExtProc(q) ==> q is Unset))
                ==> pol.ext_proc == p),
        rules[i] matches TrafficPolicy::RemoteRateLimit(p) ==> (!(p is Unset) && (forall|j: int|
            0 <= j < i ==> ((#[trigger] rules[j]) matches TrafficPolicy::RemoteRateLimit(q)
                ==> q is Unset)) ==> pol.remote_rate_limit == p),
        rules[i] matches TrafficPolicy::JwtAuth(p) ==> (!(p is Unset) && (forall|j: int|
            0 <= j < i ==> ((#[trigger] rules[j]) matches TrafficPolicy::JwtAuth(q) ==> q is Unset))
                ==> pol.jwt == p),
        rules[i] matches TrafficPolicy::Oidc(p) ==> (!(p is Unset) && (forall|j: int|
            0 <= j < i ==> ((#[trigger] rules[j]) matches TrafficPolicy::Oidc(q) ==> q is Unset))
                ==> pol.oidc == p),
        rules[i] matches TrafficPolicy::BasicAuth(p) ==> (!(p is Unset) && (forall|j: int|
            0 <= j < i ==> ((#[trigger] rules[j]) matches TrafficPolicy::BasicAuth(q)
                ==> q is Unset)) ==> pol.basic_auth == p),
        rules[i] matches TrafficPolicy::APIKey(p) ==> (!(p is Unset) && (forall|j: int|
            0 <= j < i ==> ((#[trigger] rules[j]) matches TrafficPolicy::APIKey(q) ==> q is Unset))
                ==> pol.api_key == p),
        rules[i] matches TrafficPolicy::Transformation(p) ==> (!(p is Unset) && (forall|j: int|
            0 <= j < i ==> ((#[trigger] rules[j]) matches TrafficPolicy::Transformation(q)
                ==> q is Unset)) ==> pol.transformation == p),
        rules[i] matches TrafficPolicy::Csrf(p) ==> (!(p is Unset) && (forall|j: int|
            0 <= j < i ==> ((#[trigger] rules[j]) matches TrafficPolicy::Csrf(q) ==> q is Unset))
                ==> pol.csrf == p),
        rules[i] matches TrafficPolicy::RequestHeaderModifier(p) ==> (!(p is Unset)
            && (forall|j: int|
            0 <= j < i ==> ((#[trigger] rules[j]) matches TrafficPolicy::RequestHeaderModifier(q)
                ==> q is Unset)) ==> pol.request_header_modifier == p),
        rules[i] matches TrafficPolicy::RequestRedirect(p) ==> (!(p is Unset) && (forall|j: int|
            0 <= j < i ==> ((#[trigger] rules[j]) matches TrafficPolicy::RequestRedirect(q)
                ==> q is Unset)) ==> pol.request_redirect == p),
        rules[i] matches TrafficPolicy::UrlRewrite(p) ==> (!(p is Unset) && (forall|j: int|
            0 <= j < i ==> ((#[trigger] rules[j]) matches TrafficPolicy::UrlRewrite(q)
                ==> q is Unset)) ==> pol.url_rewrite == p),
        rules[i] matches TrafficPolicy::DirectResponse(p) ==> (!(p is Unset) && (forall|j: int|
            0 <= j < i ==> ((#[trigger] rules[j]) matches TrafficPolicy::DirectResponse(q)
                ==> q is Unset)) ==> pol.direct_response == p),
        rules[i] matches TrafficPolicy::CORS(p) ==> (!(p is Unset) && (forall|j: int|
            0 <= j < i ==> ((#[trigger] rules[j]) matches TrafficPolicy::CORS(q) ==> q is Unset))
                ==> pol.cors == p),
        rules[i] matches TrafficPolicy::AI(p) ==> ((forall|j: int|
            0 <= j < i ==> ((#[trigger] rules[j]) matches TrafficPolicy::AI(q) ==> false))
                ==> pol.llm == Some(p)),
        rules[i] matches TrafficPolicy::Timeout(p) ==> ((forall|j: int|
            0 <= j < i ==> ((#[trigger] rules[j]) matches TrafficPolicy::Timeout(q) ==> false))
                ==> pol.timeout == Some(p)),
        rules[i] matches TrafficPolicy::Retry(p) ==> ((forall|j: int|
            0 <= j < i ==> ((#[trigger] rules[j]) matches TrafficPolicy::Retry(q) ==> false))
                ==> pol.retry == Some(p)),
        rules[i] matches TrafficPolicy::HostRewrite(p) ==> ((forall|j: int|
            0 <= j < i ==> ((#[trigger] rules[j]) matches TrafficPolicy::HostRewrite(q) ==> false))
                ==> pol.hostname_rewrite == Some(p)),
        rules[i] matches TrafficPolicy::ResponseHeaderModifier(p) ==> ((forall|j: int|
            0 <= j < i ==> ((#[trigger] rules[j]) matches TrafficPolicy::ResponseHeaderModifier(q)
                ==> false)) ==> pol.response_header_modifier.policy == Some(p)),
        rules[i] matches TrafficPolicy::RequestMirror(p) ==> (p@.len() > 0 && (forall|j: int|
            0 <= j < i ==> ((#[trigger] rules[j]) matches TrafficPolicy::RequestMirror(q)
                ==> q@.len() == 0)) ==> pol.request_mirror@ == p@),
{
    let kind = traffic_kind(rules[i]);
    if takes_effect(rules[i]) && (forall|j: int|
        0 <= j < i ==> !(traffic_kind(#[trigger] rules[j]) == kind && takes_effect(rules[j]))) {
        first_rule_takes_effect(rules, kind, i);
    }
}

/// A policy of a request on its route that no rule sets is left unset.
#[verifier::rlimit(60)]
#[verifier::spinoff_prover]
pub proof fn without_route_rules_nothing_is_filled(pol: RoutePolicies, rules: Seq<TrafficPolicy>)
    requires
        route_policies_of(pol, rules),
    ensures
        (forall|j: int|
            0 <= j < rules.len() ==> ((#[trigger] rules[j]) matches TrafficPolicy::LocalRateLimit(q)
                ==> q is Unset))
            ==> pol.local_rate_limit is Unset,
        (forall|j: int|
            0 <= j < rules.len() ==> ((#[trigger] rules[j]) matches TrafficPolicy::ExtAuthz(q)
                ==> q is Unset))
            ==> pol.ext_authz is Unset,
        (forall|j: int|
            0 <= j < rules.len() ==> ((#[trigger] rules[j]) matches TrafficPolicy::ExtProc(q)
                ==> q is Unset))
            ==> pol.ext_proc is Unset,
        (forall|j: int|
            0 <= j < rules.len()
                ==> ((#[trigger] rules[j]) matches TrafficPolicy::RemoteRateLimit(q)
                ==> q is Unset))
            ==> pol.remote_rate_limit is Unset,
        (forall|j: int|
            0 <= j < rules.len() ==> ((#[trigger] rules[j]) matches TrafficPolicy::JwtAuth(q)
                ==> q is Unset))
            ==> pol.jwt is Unset,
        (forall|j: int|
            0 <= j < rules.len() ==> ((#[trigger] rules[j]) matches TrafficPolicy::Oidc(q)
                ==> q is Unset))
            ==> pol.oidc is Unset,
        (forall|j: int|
            0 <= j < rules.len() ==> ((#[trigger] rules[j]) matches TrafficPolicy::BasicAuth(q)
                ==> q is Unset))
            ==> pol.basic_auth is Unset,
        (forall|j: int|
            0 <= j < rules.len() ==> ((#[trigger] rules[j]) matches TrafficPolicy::APIKey(q)
                ==> q is Unset))
            ==> pol.api_key is Unset,
        (forall|j: int|
            0 <= j < rules.len() ==> ((#[trigger] rules[j]) matches TrafficPolicy::Transformation(q)
                ==> q is Unset))
            ==> pol.transformation is Unset,
        (forall|j: int|
            0 <= j < rules.len() ==> ((#[trigger] rules[j]) matches TrafficPolicy::Csrf(q)
                ==> q is Unset))
            ==> pol.csrf is Unset,
        (forall|j: int|
            0 <= j < rules.len()
                ==> ((#[trigger] rules[j]) matches TrafficPolicy::RequestHeaderModifier(q)
                ==> q is Unset))
            ==> pol.request_header_modifier is Unset,
        (forall|j: int|
            0 <= j < rules.len()
                ==> ((#[trigger] rules[j]) matches TrafficPolicy::RequestRedirect(q)
                ==> q is Unset))
            ==> pol.request_redirect is Unset,
        (forall|j: int|
            0 <= j < rules.len() ==> ((#[trigger] rules[j]) matches TrafficPolicy::UrlRewrite(q)
                ==> q is Unset))
            ==> pol.url_rewrite is Unset,
        (forall|j: int|
            0 <= j < rules.len() ==> ((#[trigger] rules[j]) matches TrafficPolicy::DirectResponse(q)
                ==> q is Unset))
            ==> pol.direct_response is Unset,
        (forall|j: int|
            0 <= j < rules.len() ==> ((#[trigger] rules[j]) matches TrafficPolicy::CORS(q)
                ==> q is Unset))
            ==> pol.cors is Unset,
        (forall|j: int|
            0 <= j < rules.len() ==> ((#[trigger] rules[j]) matches TrafficPolicy::AI(q) ==> false))
            ==> pol.llm is None,
        (forall|j: int|
            0 <= j < rules.len() ==> ((#[trigger] rules[j]) matches TrafficPolicy::Timeout(q)
                ==> false))
            ==> pol.timeout is None,
        (forall|j: int|
            0 <= j < rules.len() ==> ((#[trigger] rules[j]) matches TrafficPolicy::Retry(q)
                ==> false))
            ==> pol.retry is None,
        (forall|j: int|
            0 <= j < rules.len() ==> ((#[trigger] rules[j]) matches TrafficPolicy::HostRewrite(q)
                ==> false))
            ==> pol.hostname_rewrite is None,
        (forall|j: int|
            0 <= j < rules.len()
                ==> ((#[trigger] rules[j]) matches TrafficPolicy::ResponseHeaderModifier(q)
                ==> false))
            ==> pol.response_header_modifier.policy is None,
        (forall|j: int|
            0 <= j < rules.len() ==> ((#[trigger] rules[j]) matches TrafficPolicy::RequestMirror(q)
                ==> q@.len() == 0))
            ==> pol.request_mirror@.len() == 0,
{
    assert forall|kind: TrafficKind|
        (forall|j: int|
            0 <= j < rules.len() ==> !(traffic_kind(#[trigger] rules[j]) == kind && takes_effect(
                rules[j],
            ))) implies #[trigger] effective(rules, kind) is None by {
        no_rule_takes_effect(rules, kind);
    }
}

/// Each policy of a request before a route is chosen is that of the first of the rules that is of
/// its kind and sets something.
#[verifier::rlimit(60)]
#[verifier::spinoff_prover]
pub proof fn first_gateway_rules_fill_the_policies(
    pol: GatewayPolicies,
    rules: Seq<TrafficPolicy>,
    i: int,
)
    requires
        gateway_policies_of(pol, rules),
        0 <= i < rules.len(),
    ensures
        rules[i] matches TrafficPolicy::Oidc(p) ==> (!(p is Unset) && (forall|j: int|
            0 <= j < i ==> ((#[trigger] rules[j]) matches TrafficPolicy::Oidc(q) ==> q is Unset))
                ==> pol.oidc == p),
        rules[i] matches TrafficPolicy::JwtAuth(p) ==> (!(p is Unset) && (forall|j: int|
            0 <= j < i ==> ((#[trigger] rules[j]) matches TrafficPolicy::JwtAuth(q) ==> q is Unset))
                ==> pol.jwt == p),
        rules[i] matches TrafficPolicy::BasicAuth(p) ==> (!(p is Unset) && (forall|j: int|
            0 <= j < i ==> ((#[trigger] rules[j]) matches TrafficPolicy::BasicAuth(q)
                ==> q is Unset)) ==> pol.basic_auth == p),
        rules[i] matches TrafficPolicy::APIKey(p) ==> (!(p is Unset) && (forall|j: int|
            0 <= j < i ==> ((#[trigger] rules[j]) matches TrafficPolicy::APIKey(q) ==> q is Unset))
                ==> pol.api_key == p),
        rules[i] matches TrafficPolicy::ExtAuthz(p) ==> (!(p is Unset) && (forall|j: int|
            0 <= j < i ==> ((#[trigger] rules[j]) matches TrafficPolicy::ExtAuthz(q)
                ==> q is Unset)) ==> pol.ext_authz == p),
        rules[i] matches TrafficPolicy::ExtProc(p) ==> (!(p is Unset) && (forall|j: int|
            0 <= j < i ==> ((#[trigger] rules[j]) matches TrafficPolicy::ExtProc(q) ==> q is Unset))
                ==> pol.ext_proc == p),
        rules[i] matches TrafficPolicy::Transformation(p) ==> (!(p is Unset) && (forall|j: int|
            0 <= j < i ==> ((#[trigger] rules[j]) matches TrafficPolicy::Transformation(q)
                ==> q is Unset)) ==> pol.transformation == p),
{
    let kind = traffic_kind(rules[i]);
    if takes_effect(rules[i]) && (forall|j: int|
        0 <= j < i ==> !(traffic_kind(#[trigger] rules[j]) == kind && takes_effect(rules[j]))) {
        first_rule_takes_effect(rules, kind, i);
    }
}

/// A policy of a request before a route is chosen that no rule sets is left unset.
#[verifier::rlimit(60)]
#[verifier::spinoff_prover]
pub proof fn without_gateway_rules_nothing_is_filled(pol: GatewayPolicies, rules: Seq<TrafficPolicy>)
    requires
        gateway_policies_of(pol, rules),
    ensures
        (forall|j: int|
            0 <= j < rules.len() ==> ((#[trigger] rules[j]) matches TrafficPolicy::Oidc(q)
                ==> q is Unset))
            ==> pol.oidc is Unset,
        (forall|j: int|
            0 <= j < rules.len() ==> ((#[trigger] rules[j]) matches TrafficPolicy::JwtAuth(q)
                ==> q is Unset))
            ==> pol.jwt is Unset,
        (forall|j: int|
            0 <= j < rules.len() ==> ((#[trigger] rules[j]) matches TrafficPolicy::BasicAuth(q)
                ==> q is Unset))
            ==> pol.basic_auth is Unset,
        (forall|j: int|
            0 <= j < rules.len() ==> ((#[trigger] rules[j]) matches TrafficPolicy::APIKey(q)
                ==> q is Unset))
            ==> pol.api_key is Unset,
        (forall|j: int|
            0 <= j < rules.len() ==> ((#[trigger] rules[j]) matches TrafficPolicy::ExtAuthz(q)
                ==> q is Unset))
            ==> pol.ext_authz is Unset,
        (forall|j: int|
            0 <= j < rules.len() ==> ((#[trigger] rules[j]) matches TrafficPolicy::ExtProc(q)
                ==> q is Unset))
            ==> pol.ext_proc is Unset,
        (forall|j: int|
            0 <= j < rules.len() ==> ((#[trigger] rules[j]) matches TrafficPolicy::Transformation(q)
                ==> q is Unset))
            ==> pol.transformation is Unset,
{
    assert forall|kind: TrafficKind|
        (forall|j: int|
            0 <= j < rules.len() ==> !(traffic_kind(#[trigger] rules[j]) == kind && takes_effect(
                rules[j],
            ))) implies #[trigger] effective(rules, kind) is None by {
        no_rule_takes_effect(rules, kind);
    }
}

/// Each policy of a call of a backend is that of the first of the rules that is of its kind and
/// sets something.
#[verifier::rlimit(60)]
#[verifier::spinoff_prover]
pub proof fn first_backend_rules_fill_the_policies(
    pol: BackendPolicies,
    rules: Seq<BackendTrafficPolicy>,
    i: int,
)
    requires
        backend_policies_of(pol, rules),
        0 <= i < rules.len(),
    ensures
        rules[i] matches BackendTrafficPolicy::A2a(p) ==> ((forall|j: int|
            0 <= j < i ==> ((#[trigger] rules[j]) matches BackendTrafficPolicy::A2a(q) ==> false))
                ==> pol.a2a == Some(p)),
        rules[i] matches BackendTrafficPolicy::BackendTLS(p) ==> ((forall|j: int|
            0 <= j < i ==> ((#[trigger] rules[j]) matches BackendTrafficPolicy::BackendTLS(q)
                ==> false)) ==> pol.backend_tls == Some(p)),
        rules[i] matches BackendTrafficPolicy::BackendAuth(p) ==> ((forall|j: int|
            0 <= j < i ==> ((#[trigger] rules[j]) matches BackendTrafficPolicy::BackendAuth(q)
                ==> false)) ==> pol.backend_auth == Some(p)),
        rules[i] matches BackendTrafficPolicy::InferenceRouting(p) ==> ((forall|j: int|
            0 <= j < i ==> ((#[trigger] rules[j]) matches BackendTrafficPolicy::InferenceRouting(q)
                ==> false)) ==> pol.inference_routing == Some(p)),
        rules[i] matches BackendTrafficPolicy::ExtAuthz(p) ==> ((forall|j: int|
            0 <= j < i ==> ((#[trigger] rules[j]) matches BackendTrafficPolicy::ExtAuthz(q)
                ==> false)) ==> pol.ext_authz.policy == Some(p)),
        rules[i] matches BackendTrafficPolicy::AI(p) ==> ((forall|j: int|
            0 <= j < i ==> ((#[trigger] rules[j]) matches BackendTrafficPolicy::AI(q) ==> false))
                ==> pol.llm == Some(p)),
        rules[i] matches BackendTrafficPolicy::HTTP(p) ==> ((forall|j: int|
            0 <= j < i ==> ((#[trigger] rules[j]) matches BackendTrafficPolicy::HTTP(q) ==> false))
                ==> pol.http == Some(p)),
        rules[i] matches BackendTrafficPolicy::TCP(p) ==> ((forall|j: int|
            0 <= j < i ==> ((#[trigger] rules[j]) matches BackendTrafficPolicy::TCP(q) ==> false))
                ==> pol.tcp == Some(p)),
        rules[i] matches BackendTrafficPolicy::Tunnel(p) ==> ((forall|j: int|
            0 <= j < i ==> ((#[trigger] rules[j]) matches BackendTrafficPolicy::Tunnel(q)
                ==> false)) ==> pol.tunnel == Some(p)),
        rules[i] matches BackendTrafficPolicy::RequestHeaderModifier(p) ==> ((forall|j: int|
            0 <= j < i
                ==> ((#[trigger] rules[j]) matches BackendTrafficPolicy::RequestHeaderModifier(q)
                ==> false)) ==> pol.request_header_modifier == Some(p)),
        rules[i] matches BackendTrafficPolicy::ResponseHeaderModifier(p) ==> ((forall|j: int|
            0 <= j < i
                ==> ((#[trigger] rules[j]) matches BackendTrafficPolicy::ResponseHeaderModifier(q)
                ==> false)) ==> pol.response_header_modifier.policy == Some(p)),
        rules[i] matches BackendTrafficPolicy::RequestRedirect(p) ==> ((forall|j: int|
            0 <= j < i ==> ((#[trigger] rules[j]) matches BackendTrafficPolicy::RequestRedirect(q)
                ==> false)) ==> pol.request_redirect == Some(p)),
        rules[i] matches BackendTrafficPolicy::Transformation(p) ==> ((forall|j: int|
            0 <= j < i ==> ((#[trigger] rules[j]) matches BackendTrafficPolicy::Transformation(q)
                ==> false)) ==> pol.transformation.policy == Some(p)),
        rules[i] matches BackendTrafficPolicy::SessionPersistence(p) ==> ((forall|j: int|
            0 <= j < i
                ==> ((#[trigger] rules[j]) matches BackendTrafficPolicy::SessionPersistence(q)
                ==> false)) ==> pol.session_persistence == Some(p)),
        rules[i] matches BackendTrafficPolicy::Health(p) ==> ((forall|j: int|
            0 <= j < i ==> ((#[trigger] rules[j]) matches BackendTrafficPolicy::Health(q)
                ==> false)) ==> pol.health == Some(p)),
        rules[i] matches BackendTrafficPolicy::McpAuthentication(p) ==> ((forall|j: int|
            0 <= j < i ==> ((#[trigger] rules[j]) matches BackendTrafficPolicy::McpAuthentication(q)
                ==> false)) ==> pol.mcp_authentication == Some(p)),
        rules[i] matches BackendTrafficPolicy::ExtMcp(p) ==> ((forall|j: int|
            0 <= j < i ==> ((#[trigger] rules[j]) matches BackendTrafficPolicy::ExtMcp(q)
                ==> false)) ==> pol.ext_mcp == Some(p)),
        rules[i] matches BackendTrafficPolicy::RequestMirror(p) ==> (p@.len() > 0 && (forall|j: int|
            0 <= j < i ==> ((#[trigger] rules[j]) matches BackendTrafficPolicy::RequestMirror(q)
                ==> q@.len() == 0)) ==> pol.request_mirror@ == p@),
{
    let kind = backend_kind(rules[i]);
    if backend_takes_effect(rules[i]) && (forall|j: int|
        0 <= j < i ==> !(backend_kind(#[trigger] rules[j]) == kind
            && backend_takes_effect(rules[j]))) {
        first_backend_rule_takes_effect(rules, kind, i);
    }
}

/// A policy of a call of a backend that no rule sets is left unset.
#[verifier::rlimit(60)]
#[verifier::spinoff_prover]
pub proof fn without_backend_rules_nothing_is_filled(pol: BackendPolicies, rules: Seq<BackendTrafficPolicy>)
    requires
        backend_policies_of(pol, rules),
    ensures
        (forall|j: int|
            0 <= j < rules.len() ==> ((#[trigger] rules[j]) matches BackendTrafficPolicy::A2a(q)
                ==> false))
            ==> pol.a2a is None,
        (forall|j: int|
            0 <= j < rules.len()
                ==> ((#[trigger] rules[j]) matches BackendTrafficPolicy::BackendTLS(q) ==> false))
            ==> pol.backend_tls is None,
        (forall|j: int|
            0 <= j < rules.len()
                ==> ((#[trigger] rules[j]) matches BackendTrafficPolicy::BackendAuth(q) ==> false))
            ==> pol.backend_auth is None,
        (forall|j: int|
            0 <= j < rules.len()
                ==> ((#[trigger] rules[j]) matches BackendTrafficPolicy::InferenceRouting(q)
                ==> false))
            ==> pol.inference_routing is None,
        (forall|j: int|
            0 <= j < rules.len()
                ==> ((#[trigger] rules[j]) matches BackendTrafficPolicy::ExtAuthz(q) ==> false))
            ==> pol.ext_authz.policy is None,
        (forall|j: int|
            0 <= j < rules.len() ==> ((#[trigger] rules[j]) matches BackendTrafficPolicy::AI(q)
                ==> false))
            ==> pol.llm is None,
        (forall|j: int|
            0 <= j < rules.len() ==> ((#[trigger] rules[j]) matches BackendTrafficPolicy::HTTP(q)
                ==> false))
            ==> pol.http is None,
        (forall|j: int|
            0 <= j < rules.len() ==> ((#[trigger] rules[j]) matches BackendTrafficPolicy::TCP(q)
                ==> false))
            ==> pol.tcp is None,
        (forall|j: int|
            0 <= j < rules.len() ==> ((#[trigger] rules[j]) matches BackendTrafficPolicy::Tunnel(q)
                ==> false))
            ==> pol.tunnel is None,
        (forall|j: int|
            0 <= j < rules.len()
                ==> ((#[trigger] rules[j]) matches BackendTrafficPolicy::RequestHeaderModifier(q)
                ==> false))
            ==> pol.request_header_modifier is None,
        (forall|j: int|
            0 <= j < rules.len()
                ==> ((#[trigger] rules[j]) matches BackendTrafficPolicy::ResponseHeaderModifier(q)
                ==> false))
            ==> pol.response_header_modifier.policy is None,
        (forall|j: int|
            0 <= j < rules.len()
                ==> ((#[trigger] rules[j]) matches BackendTrafficPolicy::RequestRedirect(q)
                ==> false))
            ==> pol.request_redirect is None,
        (forall|j: int|
            0 <= j < rules.len()
                ==> ((#[trigger] rules[j]) matches BackendTrafficPolicy::Transformation(q)
                ==> false))
            ==> pol.transformation.policy is None,
        (forall|j: int|
            0 <= j < rules.len()
                ==> ((#[trigger] rules[j]) matches BackendTrafficPolicy::SessionPersistence(q)
                ==> false))
            ==> pol.session_persistence is None,
        (forall|j: int|
            0 <= j < rules.len() ==> ((#[trigger] rules[j]) matches BackendTrafficPolicy::Health(q)
                ==> false))
            ==> pol.health is None,
        (forall|j: int|
            0 <= j < rules.len()
                ==> ((#[trigger] rules[j]) matches BackendTrafficPolicy::McpAuthentication(q)
                ==> false))
            ==> pol.mcp_authentication is None,
        (forall|j: int|
            0 <= j < rules.len() ==> ((#[trigger] rules[j]) matches BackendTrafficPolicy::ExtMcp(q)
                ==> false))
            ==> pol.ext_mcp is None,
        (forall|j: int|
            0 <= j < rules.len()
                ==> ((#[trigger] rules[j]) matches BackendTrafficPolicy::RequestMirror(q)
                ==> q@.len() == 0))
            ==> pol.request_mirror@.len() == 0,
        pol.llm_provider is None,
        pol.override_dest is None,
{
    assert forall|kind: BackendKind|
        (forall|j: int|
            0 <= j < rules.len() ==> !(backend_kind(#[trigger] rules[j]) == kind
                && backend_takes_effect(
                rules[j],
            ))) implies #[trigger] backend_effective(rules, kind) is None by {
        no_backend_rule_takes_effect(rules, kind);
    }
}

/// The rule sets that authorize a request are those of all the authorization rules, in order:
/// those of two groups of rules are those of the first followed by those of the second, a rule of
/// another kind adds none, and without any the request is not subject to authorization.
pub proof fn authorization_is_gathered_in_order(
    pol: RoutePolicies,
    first: Seq<TrafficPolicy>,
    rule: TrafficPolicy,
    second: Seq<TrafficPolicy>,
)
    ensures
        authorization_rules(first + second) == authorization_rules(first) + authorization_rules(
            second,
        ),
        authorization_rules(seq![rule]) == (match rule {
            TrafficPolicy::Authorization(p) => seq![p],
            _ => Seq::empty(),
        }),
        route_policies_of(pol, first) ==> (authorization_rules(first).len() == 0
            <==> pol.authorization is Unset),
        route_policies_of(pol, first) && authorization_rules(first).len() > 0 ==> (
        pol.authorization is Single && pol.authorization->Single_0.rule_sets@
            == authorization_rules(first)),
    decreases second.len(),
{
    let one = seq![rule];
    assert(one.drop_last() =~= Seq::<TrafficPolicy>::empty());
    assert(authorization_rules(one.drop_last()) =~= Seq::<Arc<RuleSet>>::empty());
    if rule is Authorization {
        assert(authorization_rules(one) =~= seq![rule->Authorization_0]);
    }
    if second.len() == 0 {
        assert(first + second =~= first);
        assert(authorization_rules(first) + authorization_rules(second) =~= authorization_rules(
            first,
        ));
    } else {
        assert((first + second).drop_last() =~= first + second.drop_last());
        authorization_is_gathered_in_order(pol, first, rule, second.drop_last());
        assert(authorization_rules(first + second) =~= authorization_rules(first)
            + authorization_rules(second));
    }
}

/// The rule sets that authorize MCP requests are those of all the MCP authorization rules, in
/// order, and without any nothing is subject to authorization.
pub proof fn mcp_authorization_is_gathered_in_order(
    pol: BackendPolicies,
    first: Seq<BackendTrafficPolicy>,
    rule: BackendTrafficPolicy,
    second: Seq<BackendTrafficPolicy>,
)
    ensures
        mcp_authorization_rules(first + second) == mcp_authorization_rules(first)
            + mcp_authorization_rules(second),
        mcp_authorization_rules(seq![rule]) == (match rule {
            BackendTrafficPolicy::McpAuthorization(p) => seq![p],
            _ => Seq::empty(),
        }),
        backend_policies_of(pol, first) ==> (mcp_authorization_rules(first).len() == 0
            <==> pol.mcp_authorization is None),
        backend_policies_of(pol, first) && mcp_authorization_rules(first).len() > 0 ==> (
        pol.mcp_authorization is Some && pol.mcp_authorization->0.rule_sets@
            == mcp_authorization_rules(first)),
    decreases second.len(),
{
    let one = seq![rule];
    assert(one.drop_last() =~= Seq::<BackendTrafficPolicy>::empty());
    assert(mcp_authorization_rules(one.drop_last()) =~= Seq::<Arc<RuleSet>>::empty());
    if rule is McpAuthorization {
        assert(mcp_authorization_rules(one) =~= seq![rule->McpAuthorization_0]);
    }
    if second.len() == 0 {
        assert(first + second =~= first);
        assert(mcp_authorization_rules(first) + mcp_authorization_rules(second)
            =~= mcp_authorization_rules(first));
    } else {
        assert((first + second).drop_last() =~= first + second.drop_last());
        mcp_authorization_is_gathered_in_order(pol, first, rule, second.drop_last());
        assert(mcp_authorization_rules(first + second) =~= mcp_authorization_rules(first)
            + mcp_authorization_rules(second));
    }
}

// ---------------------------------------------------------------------------------------------
// Which policies are attached where
// ---------------------------------------------------------------------------------------------

/// A policy has a say at a target exactly if it was attached to that target: to the gateway with
/// neither a listener nor a port, to the listener by its name, to the listener set with or without
/// a section, to the service whatever the port, or to the port of the gateway.
pub proof fn policies_have_a_say_at_their_target(
    s: StoreView,
    name: ListenerNameView,
    service: NamespacedHostnameView,
    target: PolicyTargetView,
    k: Text,
)
    requires
        s.inv(),
    ensures
        s.attached(target.id()).contains(k) <==> s.policies.contains_key(k)
            && s.policies[k].target@ == target,
        s.attached_to_backend(Some(target)).contains(k) <==> s.policies.contains_key(k)
            && s.policies[k].target@ == target,
        !s.attached_to_backend(None).contains(k),
        s.attached_to_gateway(name).contains(k) <==> s.policies.contains_key(k)
            && s.policies[k].target@ == PolicyTargetView::Gateway(
            ListenerTargetView {
                gateway_name: name.gateway_name,
                gateway_namespace: name.gateway_namespace,
                listener_name: None,
                port: None,
            },
        ),
        s.attached_to_listener(name).contains(k) <==> s.policies.contains_key(k)
            && s.policies[k].target@ == PolicyTargetView::Gateway(
            ListenerTargetView {
                gateway_name: name.gateway_name,
                gateway_namespace: name.gateway_namespace,
                listener_name: Some(name.listener_name),
                port: None,
            },
        ),
        s.attached_to_service(Some(service)).contains(k) <==> s.policies.contains_key(k)
            && s.policies[k].target@ == (PolicyTargetView::Service {
            hostname: service.hostname,
            namespace: service.namespace,
            port: None,
        }),
        !s.attached_to_service(None).contains(k),
        name.listener_set matches Some(set) ==> (s.attached_to_listener_set(name, true).contains(k)
            <==> s.policies.contains_key(k) && s.policies[k].target@ == (
        PolicyTargetView::ListenerSet {
            name: set.name,
            namespace: set.namespace,
            section: Some(name.listener_name),
        })),
        name.listener_set matches Some(set) ==> (s.attached_to_listener_set(name, false).contains(k)
            <==> s.policies.contains_key(k) && s.policies[k].target@ == (
        PolicyTargetView::ListenerSet {
            name: set.name,
            namespace: set.namespace,
            section: None,
        })),
        name.listener_set is None ==> !s.attached_to_listener_set(name, true).contains(k)
            && !s.attached_to_listener_set(name, false).contains(k),
{
    if s.policies.contains_key(k) {
        assert(keys_at(s.by_target, s.policies[k].target@.id()).contains(k));
    }
    assert(!Seq::<Text>::empty().contains(k));
}

/// Policies of a target count in the order in which they were attached; one that is attached again
/// counts last, and under its new target alone.
pub proof fn policies_count_in_the_order_of_attaching(
    s: StoreView,
    pol: TargetedPolicy,
    target: PolicyTargetView,
)
    requires
        s.inv(),
    ensures
        s.insert_policy(pol).attached(pol.target@.id()) == without(
            s.attached(pol.target@.id()),
            pol.key@,
        ).push(pol.key@),
        target != pol.target@ ==> s.insert_policy(pol).attached(target.id()) == without(
            s.attached(target.id()),
            pol.key@,
        ),
        s.remove_policy(pol.key@).attached(target.id()) == without(
            s.attached(target.id()),
            pol.key@,
        ),
        forall|k: Text| k != pol.key@ && #[trigger] s.policies.contains_key(k) ==> s.insert_policy(
            pol,
        ).policies.contains_key(k) && s.insert_policy(pol).policies[k] == s.policies[k]
            && s.remove_policy(pol.key@).policies.contains_key(k) && s.remove_policy(
            pol.key@,
        ).policies[k] == s.policies[k],
        s.insert_policy(pol).policies.contains_key(pol.key@),
        s.insert_policy(pol).policies[pol.key@] == Arc::new(pol),
        !s.remove_policy(pol.key@).policies.contains_key(pol.key@),
{
    let key = pol.key@;
    let id = pol.target@.id();
    crate::types::agent::target_identity_is_injective(target, pol.target@);
    lemma_without(keys_at(s.by_target, id), key);
    lemma_without(keys_at(s.by_target, target.id()), key);
    if s.policies.contains_key(key) {
        assert(keys_at(s.by_target, s.policies[key].target@.id()).contains(key));
    }
    assert(!without(keys_at(s.by_target, id), key).contains(key));
}

/// Attached policies are gathered key by key, in order, as far as they are of the wanted sort: a
/// traffic policy counts on routes or before a route is chosen by its phase, backend and frontend
/// policies count for backends and connections.
pub proof fn policies_are_gathered_by_sort(
    policies: Map<Text, Arc<TargetedPolicy>>,
    keys: Seq<Text>,
    more: Seq<Text>,
    k: Text,
)
    ensures
        gather(policies, keys + more, on_routes()) == gather(policies, keys, on_routes()) + gather(
            policies,
            more,
            on_routes(),
        ),
        gather(policies, keys + more, before_routing()) == gather(policies, keys, before_routing())
            + gather(policies, more, before_routing()),
        gather(policies, keys + more, on_backends()) == gather(policies, keys, on_backends())
            + gather(policies, more, on_backends()),
        gather(policies, keys + more, on_frontends()) == gather(policies, keys, on_frontends())
            + gather(policies, more, on_frontends()),
        gather(policies, seq![k], on_routes()) == (if !policies.contains_key(k) {
            Seq::empty()
        } else {
            match policies[k].policy {
                PolicyType::Traffic(p, PolicyPhase::Route) => seq![p],
                _ => Seq::empty(),
            }
        }),
        gather(policies, seq![k], before_routing()) == (if !policies.contains_key(k) {
            Seq::empty()
        } else {
            match policies[k].policy {
                PolicyType::Traffic(p, PolicyPhase::Gateway) => seq![p],
                _ => Seq::empty(),
            }
        }),
        gather(policies, seq![k], on_backends()) == (if !policies.contains_key(k) {
            Seq::empty()
        } else {
            match policies[k].policy {
                PolicyType::Backend(p) => seq![p],
                _ => Seq::empty(),
            }
        }),
        gather(policies, seq![k], on_frontends()) == (if !policies.contains_key(k) {
            Seq::empty()
        } else {
            match policies[k].policy {
                PolicyType::Frontend(p) => seq![p],
                _ => Seq::empty(),
            }
        }),
{
    lemma_gather_concat(policies, keys, more, on_routes());
    lemma_gather_concat(policies, keys, more, before_routing());
    lemma_gather_concat(policies, keys, more, on_backends());
    lemma_gather_concat(policies, keys, more, on_frontends());
    assert(seq![k].drop_last() =~= Seq::<Text>::empty());
    assert(gather(policies, seq![k].drop_last(), on_routes()) =~= Seq::empty());
    assert(gather(policies, seq![k].drop_last(), before_routing()) =~= Seq::empty());
    assert(gather(policies, seq![k].drop_last(), on_backends()) =~= Seq::empty());
    assert(gather(policies, seq![k].drop_last(), on_frontends()) =~= Seq::empty());
}

// ---------------------------------------------------------------------------------------------
// Routes
// ---------------------------------------------------------------------------------------------

/// A path that goes on to one more route puts that route in front: first the route's inline
/// policies, then those attached to the route's rule, then those attached to the route, then
/// everything that was in force before.
pub proof fn further_route_goes_in_front(
    s: StoreView,
    path: RoutePathView,
    route: RouteNameView,
    inline: Seq<Seq<TrafficPolicy>>,
    own: Seq<TrafficPolicy>,
)
    requires
        inline.len() == path.routes.len(),
    ensures
        s.route_rules(
            RoutePathView { routes: path.routes.push(route), ..path },
            inline.push(own),
        ) == own + gather(
            s.policies,
            keys_at(s.by_target, PolicyTargetView::Route(route).id()),
            on_routes(),
        ) + gather(
            s.policies,
            keys_at(
                s.by_target,
                PolicyTargetView::Route(RouteNameView { rule_name: None, ..route }).id(),
            ),
            on_routes(),
        ) + s.route_rules(path, inline),
        s.route_rules(RoutePathView { routes: path.routes.push(route), ..path }, inline)
            == s.route_rules(
            RoutePathView { routes: path.routes.push(route), ..path },
            inline.push(Seq::empty()),
        ),
{
    let routes = path.routes.push(route);
    let n = path.routes.len() as int;
    let level = s.route_level(route, own);
    lemma_levels_grow(s, path.routes, route, inline, own, 0);
    lemma_levels_grow(s, path.routes, route, inline, Seq::empty(), 0);
    lemma_levels_same(s, routes, inline, 0);
    let longer = s.route_rules(RoutePathView { routes, ..path }, inline.push(own));
    let shorter = s.route_rules(path, inline);
    assert(longer =~= level + shorter);
}

proof fn lemma_levels_grow(
    s: StoreView,
    routes: Seq<RouteNameView>,
    route: RouteNameView,
    inline: Seq<Seq<TrafficPolicy>>,
    own: Seq<TrafficPolicy>,
    i: int,
)
    requires
        inline.len() == routes.len(),
        0 <= i <= routes.len(),
    ensures
        s.route_levels(routes.push(route), inline.push(own), i) == s.route_level(route, own)
            + s.route_levels(routes, inline, i),
    decreases routes.len() - i,
{
    let longer = s.route_levels(routes.push(route), inline.push(own), i);
    if i == routes.len() {
        assert(s.route_levels(routes.push(route), inline.push(own), i + 1) =~= Seq::empty());
        assert(longer =~= s.route_level(route, own));
        assert(s.route_levels(routes, inline, i) =~= Seq::empty());
    } else {
        lemma_levels_grow(s, routes, route, inline, own, i + 1);
        assert(routes.push(route)[i] == routes[i]);
        assert(inline.push(own)[i] == inline[i]);
    }
    assert(longer =~= s.route_level(route, own) + s.route_levels(routes, inline, i));
}

proof fn lemma_levels_same(
    s: StoreView,
    routes: Seq<RouteNameView>,
    inline: Seq<Seq<TrafficPolicy>>,
    i: int,
)
    requires
        inline.len() + 1 == routes.len(),
        0 <= i <= routes.len(),
    ensures
        s.route_levels(routes, inline, i) == s.route_levels(
            routes,
            inline.push(Seq::empty()),
            i,
        ),
    decreases routes.len() - i,
{
    if i < routes.len() {
        lemma_levels_same(s, routes, inline, i + 1);
    }
}

/// What takes effect for a request whose path ends in a route: what does among the inline policies
/// of that route, else among those attached to its rule, else among those attached to the route,
/// else what would take effect on the path without the route.
pub proof fn last_route_decides_first(
    s: StoreView,
    path: RoutePathView,
    inline: Seq<Seq<TrafficPolicy>>,
    kind: TrafficKind,
)
    requires
        path.routes.len() > 0,
        inline.len() == path.routes.len(),
    ensures
        effective(s.route_rules(path, inline), kind) == first_of(
            effective(inline.last(), kind),
            first_of(
                effective(
                    gather(
                        s.policies,
                        keys_at(s.by_target, PolicyTargetView::Route(path.routes.last()).id()),
                        on_routes(),
                    ),
                    kind,
                ),
                first_of(
                    effective(
                        gather(
                            s.policies,
                            keys_at(
                                s.by_target,
                                PolicyTargetView::Route(
                                    RouteNameView { rule_name: None, ..path.routes.last() },
                                ).id(),
                            ),
                            on_routes(),
                        ),
                        kind,
                    ),
                    effective(
                        s.route_rules(
                            RoutePathView { routes: path.routes.drop_last(), ..path },
                            inline.drop_last(),
                        ),
                        kind,
                    ),
                ),
            ),
        ),
{
    let before = RoutePathView { routes: path.routes.drop_last(), ..path };
    let route = path.routes.last();
    let own = inline.last();
    assert(path.routes.drop_last().push(route) =~= path.routes);
    assert(inline.drop_last().push(own) =~= inline);
    further_route_goes_in_front(s, before, route, inline.drop_last(), own);
    let rule = gather(
        s.policies,
        keys_at(s.by_target, PolicyTargetView::Route(route).id()),
        on_routes(),
    );
    let whole = gather(
        s.policies,
        keys_at(
            s.by_target,
            PolicyTargetView::Route(RouteNameView { rule_name: None, ..route }).id(),
        ),
        on_routes(),
    );
    let rest = s.route_rules(before, inline.drop_last());
    earlier_rules_take_precedence(own, rule, kind);
    earlier_rules_take_precedence(own + rule, whole, kind);
    earlier_rules_take_precedence(own + rule + whole, rest, kind);
}

/// What is in force whatever the routes: the policies of the service, then those of the listener,
/// then those of the gateway.
pub proof fn routeless_path_has_the_outer_rules(
    s: StoreView,
    path: RoutePathView,
    inline: Seq<Seq<TrafficPolicy>>,
)
    requires
        path.routes.len() == 0,
    ensures
        s.route_rules(path, inline) == (match path.service {
            Some(service) => gather(
                s.policies,
                keys_at(
                    s.by_target,
                    (PolicyTargetView::Service {
                        hostname: service.hostname,
                        namespace: service.namespace,
                        port: None,
                    }).id(),
                ),
                on_routes(),
            ),
            None => Seq::empty(),
        }) + gather(
            s.policies,
            keys_at(
                s.by_target,
                PolicyTargetView::Gateway(
                    ListenerTargetView {
                        gateway_name: path.listener.gateway_name,
                        gateway_namespace: path.listener.gateway_namespace,
                        listener_name: Some(path.listener.listener_name),
                        port: None,
                    },
                ).id(),
            ),
            on_routes(),
        ) + gather(
            s.policies,
            keys_at(
                s.by_target,
                PolicyTargetView::Gateway(
                    ListenerTargetView {
                        gateway_name: path.listener.gateway_name,
                        gateway_namespace: path.listener.gateway_namespace,
                        listener_name: None,
                        port: None,
                    },
                ).id(),
            ),
            on_routes(),
        ),
{
    let k1 = s.attached_to_service(path.service);
    let k2 = s.attached_to_listener(path.listener);
    let k3 = s.attached_to_gateway(path.listener);
    lemma_gather_concat(s.policies, k1, k2, on_routes());
    lemma_gather_concat(s.policies, k1 + k2, k3, on_routes());
    assert(s.route_levels(path.routes, inline, 0) =~= Seq::empty());
    assert(gather(s.policies, Seq::<Text>::empty(), on_routes()) =~= Seq::empty());
    let all = gather(s.policies, k1 + k2 + k3, on_routes());
    assert(s.route_rules(path, inline) =~= all);
}

/// What is in force before a route is chosen: the policies of the listener, then those of its
/// section of the listener set, then those of the listener set, then those of the gateway.
pub proof fn gateway_rules_go_from_the_listener_outward(s: StoreView, name: ListenerNameView)
    ensures
        s.gateway_rules(name) == gather(
            s.policies,
            keys_at(
                s.by_target,
                PolicyTargetView::Gateway(
                    ListenerTargetView {
                        gateway_name: name.gateway_name,
                        gateway_namespace: name.gateway_namespace,
                        listener_name: Some(name.listener_name),
                        port: None,
                    },
                ).id(),
            ),
            before_routing(),
        ) + (match name.listener_set {
            Some(set) => gather(
                s.policies,
                keys_at(
                    s.by_target,
                    (PolicyTargetView::ListenerSet {
                        name: set.name,
                        namespace: set.namespace,
                        section: Some(name.listener_name),
                    }).id(),
                ),
                before_routing(),
            ) + gather(
                s.policies,
                keys_at(
                    s.by_target,
                    (PolicyTargetView::ListenerSet {
                        name: set.name,
                        namespace: set.namespace,
                        section: None,
                    }).id(),
                ),
                before_routing(),
            ),
            None => Seq::empty(),
        }) + gather(
            s.policies,
            keys_at(
                s.by_target,
                PolicyTargetView::Gateway(
                    ListenerTargetView {
                        gateway_name: name.gateway_name,
                        gateway_namespace: name.gateway_namespace,
                        listener_name: None,
                        port: None,
                    },
                ).id(),
            ),
            before_routing(),
        ),
{
    let k1 = s.attached_to_listener(name);
    let k2 = s.attached_to_listener_set(name, true);
    let k3 = s.attached_to_listener_set(name, false);
    let k4 = s.attached_to_gateway(name);
    lemma_gather_concat(s.policies, k1, k2, before_routing());
    lemma_gather_concat(s.policies, k1 + k2, k3, before_routing());
    lemma_gather_concat(s.policies, k1 + k2 + k3, k4, before_routing());
    assert(gather(s.policies, Seq::<Text>::empty(), before_routing()) =~= Seq::empty());
    let g1 = gather(s.policies, k1, before_routing());
    let g2 = gather(s.policies, k2, before_routing());
    let g3 = gather(s.policies, k3, before_routing());
    let g4 = gather(s.policies, k4, before_routing());
    assert(s.gateway_rules(name) =~= g1 + (g2 + g3) + g4);
    if name.listener_set is None {
        assert(g2 + g3 =~= Seq::empty());
    }
}

// ---------------------------------------------------------------------------------------------
// Backends
// ---------------------------------------------------------------------------------------------

/// A further list of inline policies of a backend goes in front of everything.
pub proof fn further_inline_list_goes_in_front(
    s: StoreView,
    backend: Option<PolicyTargetView>,
    sub_backend: Option<PolicyTargetView>,
    inline: Seq<Seq<BackendTrafficPolicy>>,
    list: Seq<BackendTrafficPolicy>,
    listener: Option<ListenerNameView>,
    routes: Seq<RouteNameView>,
)
    ensures
        s.backend_rules(backend, sub_backend, inline.push(list), listener, routes) == list
            + s.backend_rules(backend, sub_backend, inline, listener, routes),
        s.backend_rules(backend, sub_backend, Seq::empty(), listener, routes) == gather(
            s.policies,
            distinct(
                s.route_keys(routes, 0) + s.attached_to_backend(sub_backend)
                    + s.attached_to_backend(backend) + (match listener {
                    Some(l) => s.attached_to_listener(l) + s.attached_to_gateway(l),
                    None => Seq::empty(),
                }),
            ),
            on_backends(),
        ),
{
    lemma_reversed_push(inline, list, 0);
    assert(s.backend_rules(backend, sub_backend, inline.push(list), listener, routes) =~= list
        + s.backend_rules(backend, sub_backend, inline, listener, routes));
    assert(s.backend_rules(backend, sub_backend, Seq::empty(), listener, routes) =~= gather(
        s.policies,
        distinct(
            s.route_keys(routes, 0) + s.attached_to_backend(sub_backend) + s.attached_to_backend(
                backend,
            ) + (match listener {
                Some(l) => s.attached_to_listener(l) + s.attached_to_gateway(l),
                None => Seq::empty(),
            }),
        ),
        on_backends(),
    ));
}

proof fn lemma_reversed_push(
    lists: Seq<Seq<BackendTrafficPolicy>>,
    list: Seq<BackendTrafficPolicy>,
    i: int,
)
    requires
        0 <= i <= lists.len(),
    ensures
        crate::store::model::reversed_concat(lists.push(list), i) == list
            + crate::store::model::reversed_concat(lists, i),
    decreases lists.len() - i,
{
    let longer = crate::store::model::reversed_concat(lists.push(list), i);
    if i == lists.len() {
        assert(crate::store::model::reversed_concat(lists.push(list), i + 1) =~= Seq::empty());
        assert(longer =~= list);
    } else {
        lemma_reversed_push(lists, list, i + 1);
        assert(lists.push(list)[i] == lists[i]);
    }
    assert(longer =~= list + crate::store::model::reversed_concat(lists, i));
}

/// The backend policies of the routes of a path: those of the rule of a further route come first,
/// then those of the route, then those that there were.
pub proof fn further_route_has_its_backend_policies_in_front(
    s: StoreView,
    routes: Seq<RouteNameView>,
    route: RouteNameView,
)
    ensures
        s.route_keys(routes.push(route), 0) == keys_at(
            s.by_target,
            PolicyTargetView::Route(route).id(),
        ) + keys_at(
            s.by_target,
            PolicyTargetView::Route(RouteNameView { rule_name: None, ..route }).id(),
        ) + s.route_keys(routes, 0),
        s.route_keys(Seq::empty(), 0) == Seq::<Text>::empty(),
{
    lemma_route_keys_grow(s, routes, route, 0);
}

proof fn lemma_route_keys_grow(
    s: StoreView,
    routes: Seq<RouteNameView>,
    route: RouteNameView,
    i: int,
)
    requires
        0 <= i <= routes.len(),
    ensures
        s.route_keys(routes.push(route), i) == keys_at(
            s.by_target,
            PolicyTargetView::Route(route).id(),
        ) + keys_at(
            s.by_target,
            PolicyTargetView::Route(RouteNameView { rule_name: None, ..route }).id(),
        ) + s.route_keys(routes, i),
    decreases routes.len() - i,
{
    let a = keys_at(s.by_target, PolicyTargetView::Route(route).id());
    let b = keys_at(
        s.by_target,
        PolicyTargetView::Route(RouteNameView { rule_name: None, ..route }).id(),
    );
    let longer = s.route_keys(routes.push(route), i);
    if i == routes.len() {
        assert(s.route_keys(routes.push(route), i + 1) =~= Seq::<Text>::empty());
        assert(longer =~= a + b);
    } else {
        lemma_route_keys_grow(s, routes, route, i + 1);
        assert(routes.push(route)[i] == routes[i]);
    }
    assert(longer =~= a + b + s.route_keys(routes, i));
}

/// A policy that is listed twice counts once, where it is first listed.
pub proof fn repeated_policies_count_where_they_first_come_up(keys: Seq<Text>, k: Text)
    ensures
        distinct(keys).contains(k) <==> keys.contains(k),
        distinct(keys).no_duplicates(),
        distinct(keys.push(k)) == (if keys.contains(k) {
            distinct(keys)
        } else {
            distinct(keys).push(k)
        }),
    decreases keys.len(),
{
    assert(keys.push(k).drop_last() =~= keys);
    if keys.len() > 0 {
        let rest = keys.drop_last();
        let last = keys.last();
        repeated_policies_count_where_they_first_come_up(rest, k);
        repeated_policies_count_where_they_first_come_up(rest, last);
        assert(keys =~= rest.push(last));
        if rest.contains(k) {
            assert(keys[rest.index_of(k)] == k);
        }
        if keys.contains(k) && last != k {
            assert(rest[keys.index_of(k)] == k);
        }
        if !rest.contains(last) {
            assert(distinct(keys) =~= distinct(rest).push(last));
            assert(distinct(keys)[distinct(rest).len() as int] == last);
            if distinct(rest).contains(k) {
                assert(distinct(keys)[distinct(rest).index_of(k)] == k);
            }
        }
    }
}

// ---------------------------------------------------------------------------------------------
// Connections
// ---------------------------------------------------------------------------------------------

/// A rule of lower precedence fills the policy of its own kind where none is set, and no other. An
/// access log brings the place that it is sent to. Network authorization is not filled: it grows
/// by one rule set, which counts last.
pub proof fn connection_rule_fills_its_own_policy(rules: Seq<FrontendPolicy>, rule: FrontendPolicy)
    ensures
        ({
            let old_pol = FrontendPolicesView::of(rules);
            let new_pol = FrontendPolicesView::of(rules.push(rule));
            &&& new_pol.http == (match (old_pol.http, rule) {
                (None, FrontendPolicy::HTTP(p)) => Some(p),
                (x, _) => x,
            })
            &&& new_pol.tls == (match (old_pol.tls, rule) {
                (None, FrontendPolicy::TLS(p)) => Some(p),
                (x, _) => x,
            })
            &&& new_pol.tcp == (match (old_pol.tcp, rule) {
                (None, FrontendPolicy::TCP(p)) => Some(p),
                (x, _) => x,
            })
            &&& new_pol.proxy == (match (old_pol.proxy, rule) {
                (None, FrontendPolicy::Proxy(p)) => Some(p),
                (x, _) => x,
            })
            &&& new_pol.access_log == (match (old_pol.access_log, rule) {
                (None, FrontendPolicy::AccessLog(p)) => Some(p),
                (x, _) => x,
            })
            &&& new_pol.access_log_otlp == (match (old_pol.access_log_otlp, rule) {
                (None, FrontendPolicy::AccessLog(p)) => p.access_log_policy,
                (x, _) => x,
            })
            &&& new_pol.tracing == (match (old_pol.tracing, rule) {
                (None, FrontendPolicy::Tracing(p)) => Some(p),
                (x, _) => x,
            })
            &&& new_pol.metrics_fields == (match (old_pol.metrics_fields, rule) {
                (None, FrontendPolicy::Metrics(p)) => Some(p),
                (x, _) => x,
            })
            &&& new_pol.network_authorization == (match (old_pol.network_authorization, rule) {
                (None, FrontendPolicy::NetworkAuthorization(p)) => Some(seq![p]),
                (Some(sets), FrontendPolicy::NetworkAuthorization(p)) => Some(sets.push(p)),
                (x, _) => x,
            })
            &&& FrontendPolicesView::of(Seq::empty()) == (FrontendPolicesView {
                http: None,
                tls: None,
                tcp: None,
                network_authorization: None,
                proxy: None,
                access_log: None,
                tracing: None,
                access_log_otlp: None,
                metrics_fields: None,
            })
        }),
{
    assert(rules.push(rule).drop_last() =~= rules);
}

/// The rules of a connection: those of the service, then those of the listener, of its section of
/// the listener set, of the listener set, of the port, and of the gateway.
pub proof fn connection_rules_go_from_the_service_outward(
    s: StoreView,
    name: ListenerNameView,
    port: Option<u16>,
    service: Option<PolicyTargetView>,
)
    ensures
        ({
            let at = |t: PolicyTargetView|
                gather(s.policies, keys_at(s.by_target, t.id()), on_frontends());
            let none = Seq::<FrontendPolicy>::empty();
            s.listener_frontend_rules(name, port, service) == (match service {
                Some(t) => at(t),
                None => none,
            }) + at(
                PolicyTargetView::Gateway(
                    ListenerTargetView {
                        gateway_name: name.gateway_name,
                        gateway_namespace: name.gateway_namespace,
                        listener_name: Some(name.listener_name),
                        port: None,
                    },
                ),
            ) + (match name.listener_set {
                Some(set) => at(
                    PolicyTargetView::ListenerSet {
                        name: set.name,
                        namespace: set.namespace,
                        section: Some(name.listener_name),
                    },
                ),
                None => none,
            }) + (match name.listener_set {
                Some(set) => at(
                    PolicyTargetView::ListenerSet {
                        name: set.name,
                        namespace: set.namespace,
                        section: None,
                    },
                ),
                None => none,
            }) + (match port {
                Some(p) => at(
                    PolicyTargetView::Gateway(
                        ListenerTargetView {
                            gateway_name: name.gateway_name,
                            gateway_namespace: name.gateway_namespace,
                            listener_name: None,
                            port: Some(p),
                        },
                    ),
                ),
                None => none,
            }) + at(
                PolicyTargetView::Gateway(
                    ListenerTargetView {
                        gateway_name: name.gateway_name,
                        gateway_namespace: name.gateway_namespace,
                        listener_name: None,
                        port: None,
                    },
                ),
            )
        }),
{
    let k1 = s.attached_to_backend(service);
    let k2 = s.attached_to_listener(name);
    let k3 = s.attached_to_listener_set(name, true);
    let k4 = s.attached_to_listener_set(name, false);
    let k5 = match port {
        Some(p) => s.attached(crate::types::agent::gateway_id(name, None, Some(p))),
        None => Seq::empty(),
    };
    let k6 = s.attached_to_gateway(name);
    lemma_gather_concat(s.policies, k1, k2, on_frontends());
    lemma_gather_concat(s.policies, k1 + k2, k3, on_frontends());
    lemma_gather_concat(s.policies, k1 + k2 + k3, k4, on_frontends());
    lemma_gather_concat(s.policies, k1 + k2 + k3 + k4, k5, on_frontends());
    lemma_gather_concat(s.policies, k1 + k2 + k3 + k4 + k5, k6, on_frontends());
    assert(gather(s.policies, Seq::<Text>::empty(), on_frontends()) =~= Seq::empty());
}

/// The rules of a connection to a target: those of the target; behind those of a port of a gateway
/// come those of the gateway.
pub proof fn target_rules_come_before_those_of_its_gateway(s: StoreView, target: PolicyTargetView)
    ensures
        ({
            let at = |t: PolicyTargetView|
                gather(s.policies, keys_at(s.by_target, t.id()), on_frontends());
            s.frontend_rules(target) == (match target {
                PolicyTargetView::Gateway(t) => if t.listener_name is None && t.port is Some {
                    at(target) + at(
                        PolicyTargetView::Gateway(ListenerTargetView { port: None, ..t }),
                    )
                } else {
                    at(target)
                },
                _ => at(target),
            })
        }),
{
    let k1 = s.attached(target.id());
    let k2 = match crate::store::model::parent_gateway(target) {
        Some(t) => s.attached(t.id()),
        None => Seq::empty(),
    };
    lemma_gather_concat(s.policies, k1, k2, on_frontends());
    assert(gather(s.policies, Seq::<Text>::empty(), on_frontends()) =~= Seq::empty());
    assert(gather(s.policies, k1, on_frontends()) + Seq::empty() =~= gather(
        s.policies,
        k1,
        on_frontends(),
    ));
}

// ---------------------------------------------------------------------------------------------
// Backend policies of two levels
// ---------------------------------------------------------------------------------------------

/// A model policy of a backend that is merged with that of the route: what the backend's sets
/// stands, and the route's fills the rest. Aliases and the patterns made from them come from the
/// same policy.
pub proof fn backend_model_policy_stands(
    route: crate::store::policies::LLMRequestPolicies,
    be: Option<Arc<crate::types::llm::Policy>>,
)
    ensures
        be is None ==> route.merged(be) == route,
        route.llm is None ==> route.merged(be).llm == be,
        be matches Some(b) ==> (route.llm matches Some(r) ==> (route.merged(be).llm matches Some(m)
            && {
            &&& b.prompt_guard is Some ==> m.prompt_guard == b.prompt_guard
            &&& b.prompt_guard is None ==> m.prompt_guard == r.prompt_guard
            &&& b.defaults is Some ==> m.defaults == b.defaults
            &&& b.defaults is None ==> m.defaults == r.defaults
            &&& b.overrides is Some ==> m.overrides == b.overrides
            &&& b.overrides is None ==> m.overrides == r.overrides
            &&& b.transformations is Some ==> m.transformations == b.transformations
            &&& b.transformations is None ==> m.transformations == r.transformations
            &&& b.prompts is Some ==> m.prompts == b.prompts
            &&& b.prompts is None ==> m.prompts == r.prompts
            &&& b.prompt_caching is Some ==> m.prompt_caching == b.prompt_caching
            &&& b.prompt_caching is None ==> m.prompt_caching == r.prompt_caching
            &&& b.routes@.len() > 0 ==> m.routes == b.routes
            &&& b.routes@.len() == 0 ==> m.routes == r.routes
            &&& b.model_aliases@.len() > 0 ==> m.model_aliases == b.model_aliases
                && m.wildcard_patterns == b.wildcard_patterns
            &&& b.model_aliases@.len() == 0 ==> m.model_aliases == r.model_aliases
                && m.wildcard_patterns == r.wildcard_patterns
        })),
{
}

/// Of policies of two levels, each that the first level sets stands, and the second fills each that
/// the first leaves unset.
pub proof fn first_level_stands(first: BackendPolicies, second: BackendPolicies)
    ensures
        ({
            let m = merged(first, second);
            &&& first.backend_tls is Some ==> m.backend_tls == first.backend_tls
            &&& first.backend_tls is None ==> m.backend_tls == second.backend_tls
            &&& first.backend_auth is Some ==> m.backend_auth == first.backend_auth
            &&& first.backend_auth is None ==> m.backend_auth == second.backend_auth
            &&& first.a2a is Some ==> m.a2a == first.a2a
            &&& first.a2a is None ==> m.a2a == second.a2a
            &&& first.llm_provider is Some ==> m.llm_provider == first.llm_provider
            &&& first.llm_provider is None ==> m.llm_provider == second.llm_provider
            &&& first.llm is Some ==> m.llm == first.llm
            &&& first.llm is None ==> m.llm == second.llm
            &&& first.inference_routing is Some ==> m.inference_routing == first.inference_routing
            &&& first.inference_routing is None ==> m.inference_routing == second.inference_routing
            &&& first.ext_authz.policy is Some ==> m.ext_authz.policy == first.ext_authz.policy
            &&& first.ext_authz.policy is None ==> m.ext_authz.policy == second.ext_authz.policy
            &&& first.mcp_authorization is Some ==> m.mcp_authorization == first.mcp_authorization
            &&& first.mcp_authorization is None ==> m.mcp_authorization == second.mcp_authorization
            &&& first.mcp_authentication is Some
                ==> m.mcp_authentication == first.mcp_authentication
            &&& first.mcp_authentication is None
                ==> m.mcp_authentication == second.mcp_authentication
            &&& first.ext_mcp is Some ==> m.ext_mcp == first.ext_mcp
            &&& first.ext_mcp is None ==> m.ext_mcp == second.ext_mcp
            &&& first.http is Some ==> m.http == first.http
            &&& first.http is None ==> m.http == second.http
            &&& first.tcp is Some ==> m.tcp == first.tcp
            &&& first.tcp is None ==> m.tcp == second.tcp
            &&& first.tunnel is Some ==> m.tunnel == first.tunnel
            &&& first.tunnel is None ==> m.tunnel == second.tunnel
            &&& first.request_header_modifier is Some
                ==> m.request_header_modifier == first.request_header_modifier
            &&& first.request_header_modifier is None
                ==> m.request_header_modifier == second.request_header_modifier
            &&& first.response_header_modifier.policy is Some
                ==> m.response_header_modifier.policy == first.response_header_modifier.policy
            &&& first.response_header_modifier.policy is None
                ==> m.response_header_modifier.policy == second.response_header_modifier.policy
            &&& first.request_redirect is Some ==> m.request_redirect == first.request_redirect
            &&& first.request_redirect is None ==> m.request_redirect == second.request_redirect
            &&& first.transformation.policy is Some
                ==> m.transformation.policy == first.transformation.policy
            &&& first.transformation.policy is None
                ==> m.transformation.policy == second.transformation.policy
            &&& first.session_persistence is Some
                ==> m.session_persistence == first.session_persistence
            &&& first.session_persistence is None
                ==> m.session_persistence == second.session_persistence
            &&& first.health is Some ==> m.health == first.health
            &&& first.health is None ==> m.health == second.health
            &&& first.override_dest is Some ==> m.override_dest == first.override_dest
            &&& first.override_dest is None ==> m.override_dest == second.override_dest
            &&& first.request_mirror@.len() > 0 ==> m.request_mirror == first.request_mirror
            &&& first.request_mirror@.len() == 0 ==> m.request_mirror == second.request_mirror
        }),
{
}

// ---------------------------------------------------------------------------------------------
// Expressions
// ---------------------------------------------------------------------------------------------

proof fn lemma_registered(policies: Seq<PolicyRef<'_>>, n: int, e: Arc<Expression>)
    requires
        0 <= n <= policies.len(),
    ensures
        all_registered(policies, n).contains(e) <==> exists|i: int|
            0 <= i < n && (#[trigger] policies[i]).registered().contains(e),
    decreases n,
{
    if n > 0 {
        lemma_registered(policies, n - 1, e);
        let before = all_registered(policies, n - 1);
        let own = policies[n - 1].registered();
        let all = all_registered(policies, n);
        assert(all == before + own);
        if all.contains(e) {
            let k = all.index_of(e);
            if k < before.len() {
                assert(before[k] == e);
            } else {
                assert(own[k - before.len()] == e);
            }
        }
        if before.contains(e) {
            assert(all[before.index_of(e)] == e);
        }
        if own.contains(e) {
            assert(all[before.len() + own.index_of(e)] == e);
        }
    }
}

/// The expressions that are registered for a request on its route are exactly those of its
/// policies.
pub proof fn route_policies_register_all_expressions(pol: RoutePolicies, e: Arc<Expression>)
    ensures
        all_registered(pol.listed(), pol.listed().len() as int).contains(e) <==> {
            ||| pol.local_rate_limit.registered().contains(e)
            ||| pol.remote_rate_limit.registered().contains(e)
            ||| pol.authorization.registered().contains(e)
            ||| pol.jwt.registered().contains(e)
            ||| pol.oidc.registered().contains(e)
            ||| pol.basic_auth.registered().contains(e)
            ||| pol.api_key.registered().contains(e)
            ||| pol.ext_authz.registered().contains(e)
            ||| pol.ext_proc.registered().contains(e)
            ||| pol.transformation.registered().contains(e)
            ||| pol.csrf.registered().contains(e)
            ||| pol.direct_response.registered().contains(e)
            ||| pol.request_header_modifier.registered().contains(e)
            ||| pol.request_redirect.registered().contains(e)
            ||| pol.url_rewrite.registered().contains(e)
            ||| pol.cors.registered().contains(e)
        },
{
    let list = pol.listed();
    lemma_registered(list, list.len() as int, e);
    assert(list[0].registered() == pol.local_rate_limit.registered());
    assert(list[1].registered() == pol.remote_rate_limit.registered());
    assert(list[2].registered() == pol.authorization.registered());
    assert(list[3].registered() == pol.jwt.registered());
    assert(list[4].registered() == pol.oidc.registered());
    assert(list[5].registered() == pol.basic_auth.registered());
    assert(list[6].registered() == pol.api_key.registered());
    assert(list[7].registered() == pol.ext_authz.registered());
    assert(list[8].registered() == pol.ext_proc.registered());
    assert(list[9].registered() == pol.transformation.registered());
    assert(list[10].registered() == pol.csrf.registered());
    assert(list[11].registered() == pol.direct_response.registered());
    assert(list[12].registered() == pol.request_header_modifier.registered());
    assert(list[13].registered() == pol.request_redirect.registered());
    assert(list[14].registered() == pol.url_rewrite.registered());
    assert(list[15].registered() == pol.cors.registered());
}

/// The expressions that are registered for a request before a route is chosen are exactly those of
/// its policies.
pub proof fn gateway_policies_register_all_expressions(pol: GatewayPolicies, e: Arc<Expression>)
    ensures
        all_registered(pol.listed(), pol.listed().len() as int).contains(e) <==> {
            ||| pol.ext_proc.registered().contains(e)
            ||| pol.oidc.registered().contains(e)
            ||| pol.jwt.registered().contains(e)
            ||| pol.ext_authz.registered().contains(e)
            ||| pol.transformation.registered().contains(e)
            ||| pol.basic_auth.registered().contains(e)
            ||| pol.api_key.registered().contains(e)
        },
{
    let list = pol.listed();
    lemma_registered(list, list.len() as int, e);
    assert(list[0].registered() == pol.ext_proc.registered());
    assert(list[1].registered() == pol.oidc.registered());
    assert(list[2].registered() == pol.jwt.registered());
    assert(list[3].registered() == pol.ext_authz.registered());
    assert(list[4].registered() == pol.transformation.registered());
    assert(list[5].registered() == pol.basic_auth.registered());
    assert(list[6].registered() == pol.api_key.registered());
}

/// The log expressions of a connection are exactly the filter and the added fields of its access
/// log and the added fields of its metrics.
pub proof fn connections_register_their_log_expressions(
    pol: FrontendPolicesView,
    e: Arc<Expression>,
)
    ensures
        frontend_log_expressions(pol).contains(e) <==> {
            ||| pol.access_log is Some && pol.access_log->0.filter == Some(e)
            ||| pol.access_log is Some && exists|i: int|
                0 <= i < pol.access_log->0.add@.len() && (#[trigger] pol.access_log->0.add@[i]).1
                    == e
            ||| pol.metrics_fields is Some && exists|i: int|
                0 <= i < pol.metrics_fields->0.add@.len() && (
                #[trigger] pol.metrics_fields->0.add@[i]).1 == e
        },
{
    let a = match pol.access_log {
        Some(log) => match log.filter {
            Some(f) => seq![f],
            None => Seq::<Arc<Expression>>::empty(),
        },
        None => Seq::<Arc<Expression>>::empty(),
    };
    let b = match pol.access_log {
        Some(log) => field_expressions(log.add@),
        None => Seq::<Arc<Expression>>::empty(),
    };
    let c = match pol.metrics_fields {
        Some(m) => field_expressions(m.add@),
        None => Seq::<Arc<Expression>>::empty(),
    };
    let all = frontend_log_expressions(pol);
    assert(all =~= a + b + c);
    if all.contains(e) {
        let k = all.index_of(e);
        if k < a.len() {
            assert(a[k] == e);
        } else if k < a.len() + b.len() {
            assert(b[k - a.len()] == e);
            assert(pol.access_log->0.add@[k - a.len()].1 == e);
        } else {
            assert(c[k - a.len() - b.len()] == e);
            assert(pol.metrics_fields->0.add@[k - a.len() - b.len()].1 == e);
        }
    }
    assert(pol.access_log is Some && pol.access_log->0.filter == Some(e) ==> all[0] == e);
    if pol.access_log is Some && exists|i: int|
        0 <= i < pol.access_log->0.add@.len() && (#[trigger] pol.access_log->0.add@[i]).1 == e {
        let i = choose|i: int|
            0 <= i < pol.access_log->0.add@.len() && (#[trigger] pol.access_log->0.add@[i]).1 == e;
        assert(b[i] == e);
        assert(all[a.len() + i] == e);
    }
    if pol.metrics_fields is Some && exists|i: int|
        0 <= i < pol.metrics_fields->0.add@.len() && (#[trigger] pol.metrics_fields->0.add@[i]).1
            == e {
        let i = choose|i: int|
            0 <= i < pol.metrics_fields->0.add@.len() && (
            #[trigger] pol.metrics_fields->0.add@[i]).1 == e;
        assert(c[i] == e);
        assert(all[a.len() + b.len() + i] == e);
    }
}

} // verus!
