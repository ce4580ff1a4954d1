//! Which of the rules that apply at several levels take effect.

use std::sync::Arc;

use vstd::prelude::*;

use crate::store::policies::{BackendPolicies, GatewayPolicies, RoutePolicies};
use crate::types::policy::{
    BackendPolicy, HTTPAuthorizationSet, McpAuthorizationSet, PolicyBody, RequestPolicy, RuleSet,
};
use crate::types::policy::set_if_none;
use crate::types::traffic::{BackendTrafficPolicy, TrafficPolicy};

verus! {

// ---------------------------------------------------------------------------------------------
// Traffic policies
// ---------------------------------------------------------------------------------------------

/// The kinds of traffic policies.
#[derive(Debug, Clone, Copy, PartialEq, Eq, Structural)]
pub enum TrafficKind {
    LocalRateLimit,
    ExtAuthz,
    ExtProc,
    RemoteRateLimit,
    JwtAuth,
    Oidc,
    BasicAuth,
    APIKey,
    Transformation,
    Authorization,
    AI,
    Csrf,
    Timeout,
    Retry,
    RequestHeaderModifier,
    ResponseHeaderModifier,
    RequestRedirect,
    UrlRewrite,
    HostRewrite,
    RequestMirror,
    DirectResponse,
    CORS,
}

/// The kind of a traffic policy.
pub open spec fn traffic_kind(p: TrafficPolicy) -> TrafficKind {
    match p {
        TrafficPolicy::LocalRateLimit(_) => TrafficKind::LocalRateLimit,
        TrafficPolicy::ExtAuthz(_) => TrafficKind::ExtAuthz,
        TrafficPolicy::ExtProc(_) => TrafficKind::ExtProc,
        TrafficPolicy::RemoteRateLimit(_) => TrafficKind::RemoteRateLimit,
        TrafficPolicy::JwtAuth(_) => TrafficKind::JwtAuth,
        TrafficPolicy::Oidc(_) => TrafficKind::Oidc,
        TrafficPolicy::BasicAuth(_) => TrafficKind::BasicAuth,
        TrafficPolicy::APIKey(_) => TrafficKind::APIKey,
        TrafficPolicy::Transformation(_) => TrafficKind::Transformation,
        TrafficPolicy::Authorization(_) => TrafficKind::Authorization,
        TrafficPolicy::AI(_) => TrafficKind::AI,
        TrafficPolicy::Csrf(_) => TrafficKind::Csrf,
        TrafficPolicy::Timeout(_) => TrafficKind::Timeout,
        TrafficPolicy::Retry(_) => TrafficKind::Retry,
        TrafficPolicy::RequestHeaderModifier(_) => TrafficKind::RequestHeaderModifier,
        TrafficPolicy::ResponseHeaderModifier(_) => TrafficKind::ResponseHeaderModifier,
        TrafficPolicy::RequestRedirect(_) => TrafficKind::RequestRedirect,
        TrafficPolicy::UrlRewrite(_) => TrafficKind::UrlRewrite,
        TrafficPolicy::HostRewrite(_) => TrafficKind::HostRewrite,
        TrafficPolicy::RequestMirror(_) => TrafficKind::RequestMirror,
        TrafficPolicy::DirectResponse(_) => TrafficKind::DirectResponse,
        TrafficPolicy::CORS(_) => TrafficKind::CORS,
    }
}

/// Whether a policy sets anything: a conditional policy that is unset and an empty list of mirrors
/// do not, and authorization is gathered from all levels instead.
pub open spec fn takes_effect(p: TrafficPolicy) -> bool {
    match p {
        TrafficPolicy::LocalRateLimit(p) => !(p is Unset),
        TrafficPolicy::ExtAuthz(p) => !(p is Unset),
        TrafficPolicy::ExtProc(p) => !(p is Unset),
        TrafficPolicy::RemoteRateLimit(p) => !(p is Unset),
        TrafficPolicy::JwtAuth(p) => !(p is Unset),
        TrafficPolicy::Oidc(p) => !(p is Unset),
        TrafficPolicy::BasicAuth(p) => !(p is Unset),
        TrafficPolicy::APIKey(p) => !(p is Unset),
        TrafficPolicy::Transformation(p) => !(p is Unset),
        TrafficPolicy::Csrf(p) => !(p is Unset),
        TrafficPolicy::RequestHeaderModifier(p) => !(p is Unset),
        TrafficPolicy::RequestRedirect(p) => !(p is Unset),
        TrafficPolicy::UrlRewrite(p) => !(p is Unset),
        TrafficPolicy::DirectResponse(p) => !(p is Unset),
        TrafficPolicy::CORS(p) => !(p is Unset),
        TrafficPolicy::RequestMirror(list) => list@.len() > 0,
        TrafficPolicy::Authorization(_) => false,
        _ => true,
    }
}

/// The first of the rules that is of the kind and sets something.
pub open spec fn effective(rules: Seq<TrafficPolicy>, kind: TrafficKind) -> Option<TrafficPolicy>
    decreases rules.len(),
{
    if rules.len() == 0 {
        None
    } else {
        match effective(rules.drop_last(), kind) {
            Some(p) => Some(p),
            None => if traffic_kind(rules.last()) == kind && takes_effect(rules.last()) {
                Some(rules.last())
            } else {
                None
            },
        }
    }
}

/// The rule that takes effect is the first of its kind that sets something.
pub proof fn first_rule_takes_effect(rules: Seq<TrafficPolicy>, kind: TrafficKind, i: int)
    requires
        0 <= i < rules.len(),
        traffic_kind(rules[i]) == kind,
        takes_effect(rules[i]),
        forall|j: int|
            0 <= j < i ==> !(traffic_kind(#[trigger] rules[j]) == kind && takes_effect(rules[j])),
    ensures
        effective(rules, kind) == Some(rules[i]),
    decreases rules.len(),
{
    if i == rules.len() - 1 {
        no_rule_takes_effect(rules.drop_last(), kind);
    } else {
        first_rule_takes_effect(rules.drop_last(), kind, i);
    }
}

/// Without a rule of the kind that sets something, nothing takes effect.
pub proof fn no_rule_takes_effect(rules: Seq<TrafficPolicy>, kind: TrafficKind)
    requires
        forall|j: int|
            0 <= j < rules.len() ==> !(traffic_kind(#[trigger] rules[j]) == kind && takes_effect(
                rules[j],
            )),
    ensures
        effective(rules, kind) is None,
    decreases rules.len(),
{
    if rules.len() > 0 {
        no_rule_takes_effect(rules.drop_last(), kind);
    }
}

/// Rules that are put in front take precedence; those behind fill what is left open.
pub proof fn earlier_rules_take_precedence(
    first: Seq<TrafficPolicy>,
    second: Seq<TrafficPolicy>,
    kind: TrafficKind,
)
    ensures
        effective(first + second, kind) == (match effective(first, kind) {
            Some(p) => Some(p),
            None => effective(second, kind),
        }),
    decreases second.len(),
{
    if second.len() == 0 {
        assert(first + second =~= first);
    } else {
        assert((first + second).drop_last() =~= first + second.drop_last());
        earlier_rules_take_precedence(first, second.drop_last(), kind);
    }
}

/// The rule sets of all the authorization rules, in order.
pub open spec fn authorization_rules(rules: Seq<TrafficPolicy>) -> Seq<Arc<RuleSet>>
    decreases rules.len(),
{
    if rules.len() == 0 {
        Seq::empty()
    } else {
        match rules.last() {
            TrafficPolicy::Authorization(p) => authorization_rules(rules.drop_last()).push(p),
            _ => authorization_rules(rules.drop_last()),
        }
    }
}

/// Every authorization rule has a say, whatever the level it comes from.
pub proof fn authorization_rules_are_gathered(rules: Seq<TrafficPolicy>, i: int)
    requires
        0 <= i < rules.len(),
        rules[i] is Authorization,
    ensures
        authorization_rules(rules).contains(rules[i]->Authorization_0),
    decreases rules.len(),
{
    let p = rules[i]->Authorization_0;
    if i == rules.len() - 1 {
        assert(authorization_rules(rules).last() == p);
    } else {
        authorization_rules_are_gathered(rules.drop_last(), i);
        let before = authorization_rules(rules.drop_last());
        let j = before.index_of(p);
        assert(authorization_rules(rules)[j] == p);
    }
}

/// The policies are those that take effect among the rules. The authorization rules are gathered
/// apart.
pub open spec fn route_selects(
    pol: RoutePolicies,
    authz: Seq<Arc<RuleSet>>,
    rules: Seq<TrafficPolicy>,
) -> bool {
    &&& pol.local_rate_limit == (match effective(rules, TrafficKind::LocalRateLimit) {
        Some(TrafficPolicy::LocalRateLimit(p)) => p,
        _ => RequestPolicy::Unset,
    })
    &&& pol.ext_authz == (match effective(rules, TrafficKind::ExtAuthz) {
        Some(TrafficPolicy::ExtAuthz(p)) => p,
        _ => RequestPolicy::Unset,
    })
    &&& pol.ext_proc == (match effective(rules, TrafficKind::ExtProc) {
        Some(TrafficPolicy::ExtProc(p)) => p,
        _ => RequestPolicy::Unset,
    })
    &&& pol.remote_rate_limit == (match effective(rules, TrafficKind::RemoteRateLimit) {
        Some(TrafficPolicy::RemoteRateLimit(p)) => p,
        _ => RequestPolicy::Unset,
    })
    &&& pol.jwt == (match effective(rules, TrafficKind::JwtAuth) {
        Some(TrafficPolicy::JwtAuth(p)) => p,
        _ => RequestPolicy::Unset,
    })
    &&& pol.oidc == (match effective(rules, TrafficKind::Oidc) {
        Some(TrafficPolicy::Oidc(p)) => p,
        _ => RequestPolicy::Unset,
    })
    &&& pol.basic_auth == (match effective(rules, TrafficKind::BasicAuth) {
        Some(TrafficPolicy::BasicAuth(p)) => p,
        _ => RequestPolicy::Unset,
    })
    &&& pol.api_key == (match effective(rules, TrafficKind::APIKey) {
        Some(TrafficPolicy::APIKey(p)) => p,
        _ => RequestPolicy::Unset,
    })
    &&& pol.transformation == (match effective(rules, TrafficKind::Transformation) {
        Some(TrafficPolicy::Transformation(p)) => p,
        _ => RequestPolicy::Unset,
    })
    &&& pol.llm == (match effective(rules, TrafficKind::AI) {
        Some(TrafficPolicy::AI(p)) => Some(p),
        _ => None,
    })
    &&& pol.csrf == (match effective(rules, TrafficKind::Csrf) {
        Some(TrafficPolicy::Csrf(p)) => p,
        _ => RequestPolicy::Unset,
    })
    &&& pol.timeout == (match effective(rules, TrafficKind::Timeout) {
        Some(TrafficPolicy::Timeout(p)) => Some(p),
        _ => None,
    })
    &&& pol.retry == (match effective(rules, TrafficKind::Retry) {
        Some(TrafficPolicy::Retry(p)) => Some(p),
        _ => None,
    })
    &&& pol.request_header_modifier == (match effective(rules, TrafficKind::RequestHeaderModifier) {
        Some(TrafficPolicy::RequestHeaderModifier(p)) => p,
        _ => RequestPolicy::Unset,
    })
    &&& pol.response_header_modifier.policy == (match effective(
        rules,
        TrafficKind::ResponseHeaderModifier,
    ) {
        Some(TrafficPolicy::ResponseHeaderModifier(p)) => Some(p),
        _ => None,
    })
    &&& pol.request_redirect == (match effective(rules, TrafficKind::RequestRedirect) {
        Some(TrafficPolicy::RequestRedirect(p)) => p,
        _ => RequestPolicy::Unset,
    })
    &&& pol.url_rewrite == (match effective(rules, TrafficKind::UrlRewrite) {
        Some(TrafficPolicy::UrlRewrite(p)) => p,
        _ => RequestPolicy::Unset,
    })
    &&& pol.hostname_rewrite == (match effective(rules, TrafficKind::HostRewrite) {
        Some(TrafficPolicy::HostRewrite(p)) => Some(p),
        _ => None,
    })
    &&& pol.request_mirror@ == (match effective(rules, TrafficKind::RequestMirror) {
        Some(TrafficPolicy::RequestMirror(list)) => list@,
        _ => Seq::empty(),
    })
    &&& pol.direct_response == (match effective(rules, TrafficKind::DirectResponse) {
        Some(TrafficPolicy::DirectResponse(p)) => p,
        _ => RequestPolicy::Unset,
    })
    &&& pol.cors == (match effective(rules, TrafficKind::CORS) {
        Some(TrafficPolicy::CORS(p)) => p,
        _ => RequestPolicy::Unset,
    })
    &&& authz == authorization_rules(rules)
}

/// The authorization that a sequence of rule sets comes to.
pub open spec fn gathered_authorization(
    policy: RequestPolicy<HTTPAuthorizationSet>,
    rule_sets: Seq<Arc<RuleSet>>,
) -> bool {
    if rule_sets.len() == 0 {
        policy is Unset
    } else {
        policy is Single && policy->Single_0.rule_sets@ == rule_sets
    }
}

/// The policies of a request on its route are those that take effect among the rules, with all of
/// the authorization rules.
pub open spec fn route_policies_of(pol: RoutePolicies, rules: Seq<TrafficPolicy>) -> bool {
    &&& route_selects(
        RoutePolicies { authorization: RequestPolicy::Unset, ..pol },
        authorization_rules(rules),
        rules,
    )
    &&& gathered_authorization(pol.authorization, authorization_rules(rules))
}

/// The policies of a request before a route is chosen are those that take effect among the rules.
pub open spec fn gateway_policies_of(pol: GatewayPolicies, rules: Seq<TrafficPolicy>) -> bool {
    &&& pol.oidc == (match effective(rules, TrafficKind::Oidc) {
        Some(TrafficPolicy::Oidc(p)) => p,
        _ => RequestPolicy::Unset,
    })
    &&& pol.jwt == (match effective(rules, TrafficKind::JwtAuth) {
        Some(TrafficPolicy::JwtAuth(p)) => p,
        _ => RequestPolicy::Unset,
    })
    &&& pol.basic_auth == (match effective(rules, TrafficKind::BasicAuth) {
        Some(TrafficPolicy::BasicAuth(p)) => p,
        _ => RequestPolicy::Unset,
    })
    &&& pol.api_key == (match effective(rules, TrafficKind::APIKey) {
        Some(TrafficPolicy::APIKey(p)) => p,
        _ => RequestPolicy::Unset,
    })
    &&& pol.ext_authz == (match effective(rules, TrafficKind::ExtAuthz) {
        Some(TrafficPolicy::ExtAuthz(p)) => p,
        _ => RequestPolicy::Unset,
    })
    &&& pol.ext_proc == (match effective(rules, TrafficKind::ExtProc) {
        Some(TrafficPolicy::ExtProc(p)) => p,
        _ => RequestPolicy::Unset,
    })
    &&& pol.transformation == (match effective(rules, TrafficKind::Transformation) {
        Some(TrafficPolicy::Transformation(p)) => p,
        _ => RequestPolicy::Unset,
    })
}

/// No policies.
pub(crate) fn empty_route_policies() -> (r: RoutePolicies)
    ensures
        r.authorization is Unset,
        route_selects(r, Seq::empty(), Seq::empty()),
{
    let r = RoutePolicies {
        local_rate_limit: RequestPolicy::Unset,
        ext_authz: RequestPolicy::Unset,
        ext_proc: RequestPolicy::Unset,
        remote_rate_limit: RequestPolicy::Unset,
        jwt: RequestPolicy::Unset,
        oidc: RequestPolicy::Unset,
        basic_auth: RequestPolicy::Unset,
        api_key: RequestPolicy::Unset,
        transformation: RequestPolicy::Unset,
        llm: None,
        csrf: RequestPolicy::Unset,
        timeout: None,
        retry: None,
        request_header_modifier: RequestPolicy::Unset,
        request_redirect: RequestPolicy::Unset,
        url_rewrite: RequestPolicy::Unset,
        direct_response: RequestPolicy::Unset,
        cors: RequestPolicy::Unset,
        authorization: RequestPolicy::Unset,
        response_header_modifier: BackendPolicy::unset(),
        hostname_rewrite: None,
        request_mirror: Arc::new(Vec::new()),
    };
    assert(r.request_mirror@ =~= Seq::<Arc<PolicyBody>>::empty());
    r
}

/// Adds a rule of lower precedence than those that were added before.
#[verifier::rlimit(60)]
#[verifier::spinoff_prover]
pub(crate) fn add_route_rule(
    pol: &mut RoutePolicies,
    authz: &mut Vec<Arc<RuleSet>>,
    rule: &TrafficPolicy,
    Ghost(rules): Ghost<Seq<TrafficPolicy>>,
)
    requires
        route_selects(*old(pol), old(authz)@, rules),
        old(pol).authorization is Unset,
    ensures
        route_selects(*final(pol), final(authz)@, rules.push(*rule)),
        final(pol).authorization is Unset,
{
    proof {
        assert(rules.push(*rule).drop_last() =~= rules);
        assert forall|kind: TrafficKind| true implies #[trigger] effective(rules.push(*rule), kind)
            == (match effective(rules, kind) {
            Some(p) => Some(p),
            None => if traffic_kind(*rule) == kind && takes_effect(*rule) {
                Some(*rule)
            } else {
                None
            },
        }) by {}
        lemma_effective_kinds(rules);
    }
    match rule {
        TrafficPolicy::LocalRateLimit(p) => pol.local_rate_limit.set_if_unset(p),
        TrafficPolicy::ExtAuthz(p) => pol.ext_authz.set_if_unset(p),
        TrafficPolicy::ExtProc(p) => pol.ext_proc.set_if_unset(p),
        TrafficPolicy::RemoteRateLimit(p) => pol.remote_rate_limit.set_if_unset(p),
        TrafficPolicy::JwtAuth(p) => pol.jwt.set_if_unset(p),
        TrafficPolicy::Oidc(p) => pol.oidc.set_if_unset(p),
        TrafficPolicy::BasicAuth(p) => pol.basic_auth.set_if_unset(p),
        TrafficPolicy::APIKey(p) => pol.api_key.set_if_unset(p),
        TrafficPolicy::Transformation(p) => pol.transformation.set_if_unset(p),
        TrafficPolicy::AI(p) => set_if_none(&mut pol.llm, p),
        TrafficPolicy::Csrf(p) => pol.csrf.set_if_unset(p),
        TrafficPolicy::Timeout(p) => set_if_none(&mut pol.timeout, p),
        TrafficPolicy::Retry(p) => set_if_none(&mut pol.retry, p),
        TrafficPolicy::RequestHeaderModifier(p) => pol.request_header_modifier.set_if_unset(p),
        TrafficPolicy::RequestRedirect(p) => pol.request_redirect.set_if_unset(p),
        TrafficPolicy::UrlRewrite(p) => pol.url_rewrite.set_if_unset(p),
        TrafficPolicy::DirectResponse(p) => pol.direct_response.set_if_unset(p),
        TrafficPolicy::CORS(p) => pol.cors.set_if_unset(p),
        TrafficPolicy::Authorization(p) => authz.push(p.clone()),
        TrafficPolicy::ResponseHeaderModifier(p) => pol.response_header_modifier.set_if_unset(p),
        TrafficPolicy::HostRewrite(p) => {
            if pol.hostname_rewrite.is_none() {
                pol.hostname_rewrite = Some(*p);
            }
        },
        TrafficPolicy::RequestMirror(p) => {
            if pol.request_mirror.len() == 0 {
                pol.request_mirror = p.clone();
            }
            assert(p@.len() == 0 ==> p@ =~= Seq::<Arc<PolicyBody>>::empty());
        },
    }
}

/// What takes effect for a kind is of that kind, and sets something.
proof fn lemma_effective_kinds(rules: Seq<TrafficPolicy>)
    ensures
        forall|kind: TrafficKind|
            (#[trigger] effective(rules, kind)) matches Some(p) ==> traffic_kind(p) == kind
                && takes_effect(p),
    decreases rules.len(),
{
    if rules.len() > 0 {
        lemma_effective_kinds(rules.drop_last());
        assert forall|kind: TrafficKind| true implies ((#[trigger] effective(rules, kind)) matches Some(
            p,
        ) ==> traffic_kind(p) == kind && takes_effect(p)) by {
            let before = effective(rules.drop_last(), kind);
        }
    }
}

/// No policies.
pub(crate) fn empty_gateway_policies() -> (r: GatewayPolicies)
    ensures
        gateway_policies_of(r, Seq::empty()),
{
    GatewayPolicies {
        oidc: RequestPolicy::Unset,
        jwt: RequestPolicy::Unset,
        basic_auth: RequestPolicy::Unset,
        api_key: RequestPolicy::Unset,
        ext_authz: RequestPolicy::Unset,
        ext_proc: RequestPolicy::Unset,
        transformation: RequestPolicy::Unset,
    }
}

/// Adds a rule of lower precedence than those that were added before. A rule that does not belong
/// before routing is passed over.
pub(crate) fn add_gateway_rule(
    pol: &mut GatewayPolicies,
    rule: &TrafficPolicy,
    Ghost(rules): Ghost<Seq<TrafficPolicy>>,
)
    requires
        gateway_policies_of(*old(pol), rules),
    ensures
        gateway_policies_of(*final(pol), rules.push(*rule)),
{
    proof {
        assert(rules.push(*rule).drop_last() =~= rules);
        lemma_effective_kinds(rules);
    }
    match rule {
        TrafficPolicy::Oidc(p) => pol.oidc.set_if_unset(p),
        TrafficPolicy::JwtAuth(p) => pol.jwt.set_if_unset(p),
        TrafficPolicy::BasicAuth(p) => pol.basic_auth.set_if_unset(p),
        TrafficPolicy::APIKey(p) => pol.api_key.set_if_unset(p),
        TrafficPolicy::ExtAuthz(p) => pol.ext_authz.set_if_unset(p),
        TrafficPolicy::ExtProc(p) => pol.ext_proc.set_if_unset(p),
        TrafficPolicy::Transformation(p) => pol.transformation.set_if_unset(p),
        _ => {},
    }
}

// ---------------------------------------------------------------------------------------------
// Backend policies
// ---------------------------------------------------------------------------------------------

/// The kinds of backend policies.
#[derive(Debug, Clone, Copy, PartialEq, Eq, Structural)]
pub enum BackendKind {
    A2a,
    BackendTLS,
    BackendAuth,
    InferenceRouting,
    ExtAuthz,
    AI,
    HTTP,
    TCP,
    Tunnel,
    RequestHeaderModifier,
    ResponseHeaderModifier,
    RequestRedirect,
    Transformation,
    SessionPersistence,
    Health,
    RequestMirror,
    McpAuthorization,
    McpAuthentication,
    ExtMcp,
}

/// The kind of a backend policy.
pub open spec fn backend_kind(p: BackendTrafficPolicy) -> BackendKind {
    match p {
        BackendTrafficPolicy::A2a(_) => BackendKind::A2a,
        BackendTrafficPolicy::BackendTLS(_) => BackendKind::BackendTLS,
        BackendTrafficPolicy::BackendAuth(_) => BackendKind::BackendAuth,
        BackendTrafficPolicy::InferenceRouting(_) => BackendKind::InferenceRouting,
        BackendTrafficPolicy::ExtAuthz(_) => BackendKind::ExtAuthz,
        BackendTrafficPolicy::AI(_) => BackendKind::AI,
        BackendTrafficPolicy::HTTP(_) => BackendKind::HTTP,
        BackendTrafficPolicy::TCP(_) => BackendKind::TCP,
        BackendTrafficPolicy::Tunnel(_) => BackendKind::Tunnel,
        BackendTrafficPolicy::RequestHeaderModifier(_) => BackendKind::RequestHeaderModifier,
        BackendTrafficPolicy::ResponseHeaderModifier(_) => BackendKind::ResponseHeaderModifier,
        BackendTrafficPolicy::RequestRedirect(_) => BackendKind::RequestRedirect,
        BackendTrafficPolicy::Transformation(_) => BackendKind::Transformation,
        BackendTrafficPolicy::SessionPersistence(_) => BackendKind::SessionPersistence,
        BackendTrafficPolicy::Health(_) => BackendKind::Health,
        BackendTrafficPolicy::RequestMirror(_) => BackendKind::RequestMirror,
        BackendTrafficPolicy::McpAuthorization(_) => BackendKind::McpAuthorization,
        BackendTrafficPolicy::McpAuthentication(_) => BackendKind::McpAuthentication,
        BackendTrafficPolicy::ExtMcp(_) => BackendKind::ExtMcp,
    }
}

/// Whether a policy sets anything: an empty list of mirrors does not, and MCP authorization is
/// gathered from all levels instead.
pub open spec fn backend_takes_effect(p: BackendTrafficPolicy) -> bool {
    match p {
        BackendTrafficPolicy::RequestMirror(list) => list@.len() > 0,
        BackendTrafficPolicy::McpAuthorization(_) => false,
        _ => true,
    }
}

/// The first of the rules that is of the kind and sets something.
pub open spec fn backend_effective(
    rules: Seq<BackendTrafficPolicy>,
    kind: BackendKind,
) -> Option<BackendTrafficPolicy>
    decreases rules.len(),
{
    if rules.len() == 0 {
        None
    } else {
        match backend_effective(rules.drop_last(), kind) {
            Some(p) => Some(p),
            None => if backend_kind(rules.last()) == kind && backend_takes_effect(rules.last()) {
                Some(rules.last())
            } else {
                None
            },
        }
    }
}

/// The rule that takes effect is the first of its kind that sets something.
pub proof fn first_backend_rule_takes_effect(
    rules: Seq<BackendTrafficPolicy>,
    kind: BackendKind,
    i: int,
)
    requires
        0 <= i < rules.len(),
        backend_kind(rules[i]) == kind,
        backend_takes_effect(rules[i]),
        forall|j: int|
            0 <= j < i ==> !(backend_kind(#[trigger] rules[j]) == kind && backend_takes_effect(
                rules[j],
            )),
    ensures
        backend_effective(rules, kind) == Some(rules[i]),
    decreases rules.len(),
{
    if i == rules.len() - 1 {
        no_backend_rule_takes_effect(rules.drop_last(), kind);
    } else {
        first_backend_rule_takes_effect(rules.drop_last(), kind, i);
    }
}

/// Without a rule of the kind that sets something, nothing takes effect.
pub proof fn no_backend_rule_takes_effect(rules: Seq<BackendTrafficPolicy>, kind: BackendKind)
    requires
        forall|j: int|
            0 <= j < rules.len() ==> !(backend_kind(#[trigger] rules[j]) == kind
                && backend_takes_effect(rules[j])),
    ensures
        backend_effective(rules, kind) is None,
    decreases rules.len(),
{
    if rules.len() > 0 {
        no_backend_rule_takes_effect(rules.drop_last(), kind);
    }
}

/// Rules that are put in front take precedence; those behind fill what is left open.
pub proof fn earlier_backend_rules_take_precedence(
    first: Seq<BackendTrafficPolicy>,
    second: Seq<BackendTrafficPolicy>,
    kind: BackendKind,
)
    ensures
        backend_effective(first + second, kind) == (match backend_effective(first, kind) {
            Some(p) => Some(p),
            None => backend_effective(second, kind),
        }),
    decreases second.len(),
{
    if second.len() == 0 {
        assert(first + second =~= first);
    } else {
        assert((first + second).drop_last() =~= first + second.drop_last());
        earlier_backend_rules_take_precedence(first, second.drop_last(), kind);
    }
}

/// The rule sets of all the MCP authorization rules, in order.
pub open spec fn mcp_authorization_rules(rules: Seq<BackendTrafficPolicy>) -> Seq<Arc<RuleSet>>
    decreases rules.len(),
{
    if rules.len() == 0 {
        Seq::empty()
    } else {
        match rules.last() {
            BackendTrafficPolicy::McpAuthorization(p) => mcp_authorization_rules(
                rules.drop_last(),
            ).push(p),
            _ => mcp_authorization_rules(rules.drop_last()),
        }
    }
}

/// The policies are those that take effect among the rules. The authorization rules are gathered
/// apart.
pub open spec fn backend_selects(
    pol: BackendPolicies,
    authz: Seq<Arc<RuleSet>>,
    rules: Seq<BackendTrafficPolicy>,
) -> bool {
    &&& pol.a2a == (match backend_effective(rules, BackendKind::A2a) {
        Some(BackendTrafficPolicy::A2a(p)) => Some(p),
        _ => None,
    })
    &&& pol.backend_tls == (match backend_effective(rules, BackendKind::BackendTLS) {
        Some(BackendTrafficPolicy::BackendTLS(p)) => Some(p),
        _ => None,
    })
    &&& pol.backend_auth == (match backend_effective(rules, BackendKind::BackendAuth) {
        Some(BackendTrafficPolicy::BackendAuth(p)) => Some(p),
        _ => None,
    })
    &&& pol.inference_routing == (match backend_effective(rules, BackendKind::InferenceRouting) {
        Some(BackendTrafficPolicy::InferenceRouting(p)) => Some(p),
        _ => None,
    })
    &&& pol.ext_authz.policy == (match backend_effective(rules, BackendKind::ExtAuthz) {
        Some(BackendTrafficPolicy::ExtAuthz(p)) => Some(p),
        _ => None,
    })
    &&& pol.llm == (match backend_effective(rules, BackendKind::AI) {
        Some(BackendTrafficPolicy::AI(p)) => Some(p),
        _ => None,
    })
    &&& pol.http == (match backend_effective(rules, BackendKind::HTTP) {
        Some(BackendTrafficPolicy::HTTP(p)) => Some(p),
        _ => None,
    })
    &&& pol.tcp == (match backend_effective(rules, BackendKind::TCP) {
        Some(BackendTrafficPolicy::TCP(p)) => Some(p),
        _ => None,
    })
    &&& pol.tunnel == (match backend_effective(rules, BackendKind::Tunnel) {
        Some(BackendTrafficPolicy::Tunnel(p)) => Some(p),
        _ => None,
    })
    &&& pol.request_header_modifier == (match backend_effective(rules, BackendKind::RequestHeaderModifier) {
        Some(BackendTrafficPolicy::RequestHeaderModifier(p)) => Some(p),
        _ => None,
    })
    &&& pol.response_header_modifier.policy == (match backend_effective(rules, BackendKind::ResponseHeaderModifier) {
        Some(BackendTrafficPolicy::ResponseHeaderModifier(p)) => Some(p),
        _ => None,
    })
    &&& pol.request_redirect == (match backend_effective(rules, BackendKind::RequestRedirect) {
        Some(BackendTrafficPolicy::RequestRedirect(p)) => Some(p),
        _ => None,
    })
    &&& pol.transformation.policy == (match backend_effective(rules, BackendKind::Transformation) {
        Some(BackendTrafficPolicy::Transformation(p)) => Some(p),
        _ => None,
    })
    &&& pol.session_persistence == (match backend_effective(rules, BackendKind::SessionPersistence) {
        Some(BackendTrafficPolicy::SessionPersistence(p)) => Some(p),
        _ => None,
    })
    &&& pol.health == (match backend_effective(rules, BackendKind::Health) {
        Some(BackendTrafficPolicy::Health(p)) => Some(p),
        _ => None,
    })
    &&& pol.request_mirror@ == (match backend_effective(rules, BackendKind::RequestMirror) {
        Some(BackendTrafficPolicy::RequestMirror(list)) => list@,
        _ => Seq::empty(),
    })
    &&& pol.mcp_authentication == (match backend_effective(rules, BackendKind::McpAuthentication) {
        Some(BackendTrafficPolicy::McpAuthentication(p)) => Some(p),
        _ => None,
    })
    &&& pol.ext_mcp == (match backend_effective(rules, BackendKind::ExtMcp) {
        Some(BackendTrafficPolicy::ExtMcp(p)) => Some(p),
        _ => None,
    })
    &&& pol.llm_provider is None
    &&& pol.override_dest is None
    &&& authz == mcp_authorization_rules(rules)
}

/// The policies of a call of a backend are those that take effect among the rules, with all of the
/// MCP authorization rules.
pub open spec fn backend_policies_of(
    pol: BackendPolicies,
    rules: Seq<BackendTrafficPolicy>,
) -> bool {
    &&& backend_selects(
        BackendPolicies { mcp_authorization: None, ..pol },
        mcp_authorization_rules(rules),
        rules,
    )
    &&& match pol.mcp_authorization {
        Some(set) => set.rule_sets@ == mcp_authorization_rules(rules)
            && mcp_authorization_rules(rules).len() > 0,
        None => mcp_authorization_rules(rules).len() == 0,
    }
}

/// What takes effect for a kind is of that kind, and sets something.
proof fn lemma_backend_effective_kinds(rules: Seq<BackendTrafficPolicy>)
    ensures
        forall|kind: BackendKind|
            (#[trigger] backend_effective(rules, kind)) matches Some(p) ==> backend_kind(p) == kind
                && backend_takes_effect(p),
    decreases rules.len(),
{
    if rules.len() > 0 {
        lemma_backend_effective_kinds(rules.drop_last());
        assert forall|kind: BackendKind| true implies ((#[trigger] backend_effective(
            rules,
            kind,
        )) matches Some(p) ==> backend_kind(p) == kind && backend_takes_effect(p)) by {
            let before = backend_effective(rules.drop_last(), kind);
        }
    }
}

/// No policies.
pub(crate) fn empty_backend_policies() -> (r: BackendPolicies)
    ensures
        r.mcp_authorization is None,
        backend_selects(r, Seq::empty(), Seq::empty()),
{
    let r = BackendPolicies::empty();
    assert(r.request_mirror@ =~= Seq::<Arc<PolicyBody>>::empty());
    r
}

/// Adds a rule of lower precedence than those that were added before.
#[verifier::rlimit(60)]
#[verifier::spinoff_prover]
pub(crate) fn add_backend_rule(
    pol: &mut BackendPolicies,
    authz: &mut Vec<Arc<RuleSet>>,
    rule: &BackendTrafficPolicy,
    Ghost(rules): Ghost<Seq<BackendTrafficPolicy>>,
)
    requires
        backend_selects(*old(pol), old(authz)@, rules),
        old(pol).mcp_authorization is None,
    ensures
        backend_selects(*final(pol), final(authz)@, rules.push(*rule)),
        final(pol).mcp_authorization is None,
{
    proof {
        assert(rules.push(*rule).drop_last() =~= rules);
        lemma_backend_effective_kinds(rules);
    }
    match rule {
        BackendTrafficPolicy::A2a(p) => set_if_none(&mut pol.a2a, p),
        BackendTrafficPolicy::BackendTLS(p) => set_if_none(&mut pol.backend_tls, p),
        BackendTrafficPolicy::BackendAuth(p) => set_if_none(&mut pol.backend_auth, p),
        BackendTrafficPolicy::InferenceRouting(p) => set_if_none(&mut pol.inference_routing, p),
        BackendTrafficPolicy::ExtAuthz(p) => pol.ext_authz.set_if_unset(p),
        BackendTrafficPolicy::AI(p) => set_if_none(&mut pol.llm, p),
        BackendTrafficPolicy::HTTP(p) => set_if_none(&mut pol.http, p),
        BackendTrafficPolicy::TCP(p) => set_if_none(&mut pol.tcp, p),
        BackendTrafficPolicy::Tunnel(p) => set_if_none(&mut pol.tunnel, p),
        BackendTrafficPolicy::RequestHeaderModifier(p) => set_if_none(&mut pol.request_header_modifier, p),
        BackendTrafficPolicy::ResponseHeaderModifier(p) => pol.response_header_modifier.set_if_unset(p),
        BackendTrafficPolicy::RequestRedirect(p) => set_if_none(&mut pol.request_redirect, p),
        BackendTrafficPolicy::Transformation(p) => pol.transformation.set_if_unset(p),
        BackendTrafficPolicy::SessionPersistence(p) => set_if_none(&mut pol.session_persistence, p),
        BackendTrafficPolicy::Health(p) => set_if_none(&mut pol.health, p),
        BackendTrafficPolicy::McpAuthentication(p) => set_if_none(&mut pol.mcp_authentication, p),
        BackendTrafficPolicy::ExtMcp(p) => set_if_none(&mut pol.ext_mcp, p),
        BackendTrafficPolicy::RequestMirror(p) => {
            if pol.request_mirror.len() == 0 {
                pol.request_mirror = p.clone();
            }
            assert(p@.len() == 0 ==> p@ =~= Seq::<Arc<PolicyBody>>::empty());
        },
        BackendTrafficPolicy::McpAuthorization(p) => authz.push(p.clone()),
    }
}

/// Adds rules of lower precedence than those that were added before.
pub(crate) fn add_backend_rules(
    pol: &mut BackendPolicies,
    authz: &mut Vec<Arc<RuleSet>>,
    list: &[BackendTrafficPolicy],
    Ghost(rules): Ghost<Seq<BackendTrafficPolicy>>,
)
    requires
        backend_selects(*old(pol), old(authz)@, rules),
        old(pol).mcp_authorization is None,
    ensures
        backend_selects(*final(pol), final(authz)@, rules + list@),
        final(pol).mcp_authorization is None,
{
    let mut i: usize = 0;
    assert(rules + list@.take(0) =~= rules);
    while i < list.len()
        invariant
            i <= list@.len(),
            backend_selects(*pol, authz@, rules + list@.take(i as int)),
            pol.mcp_authorization is None,
        decreases list@.len() - i,
    {
        add_backend_rule(pol, authz, &list[i], Ghost(rules + list@.take(i as int)));
        assert((rules + list@.take(i as int)).push(list@[i as int]) =~= rules + list@.take(
            i as int + 1,
        ));
        i = i + 1;
    }
    assert(list@.take(i as int) =~= list@);
}

/// Adds rules of lower precedence than those that were added before.
pub(crate) fn add_route_rules(
    pol: &mut RoutePolicies,
    authz: &mut Vec<Arc<RuleSet>>,
    list: &[TrafficPolicy],
    Ghost(rules): Ghost<Seq<TrafficPolicy>>,
)
    requires
        route_selects(*old(pol), old(authz)@, rules),
        old(pol).authorization is Unset,
    ensures
        route_selects(*final(pol), final(authz)@, rules + list@),
        final(pol).authorization is Unset,
{
    let mut i: usize = 0;
    assert(rules + list@.take(0) =~= rules);
    while i < list.len()
        invariant
            i <= list@.len(),
            route_selects(*pol, authz@, rules + list@.take(i as int)),
            pol.authorization is Unset,
        decreases list@.len() - i,
    {
        add_route_rule(pol, authz, &list[i], Ghost(rules + list@.take(i as int)));
        assert((rules + list@.take(i as int)).push(list@[i as int]) =~= rules + list@.take(
            i as int + 1,
        ));
        i = i + 1;
    }
    assert(list@.take(i as int) =~= list@);
}

/// The policies with the authorization rules put in.
pub(crate) fn finish_route_policies(
    pol: RoutePolicies,
    authz: Vec<Arc<RuleSet>>,
    Ghost(rules): Ghost<Seq<TrafficPolicy>>,
) -> (r: RoutePolicies)
    requires
        route_selects(pol, authz@, rules),
        pol.authorization is Unset,
    ensures
        route_policies_of(r, rules),
{
    let mut pol = pol;
    if authz.len() > 0 {
        pol.authorization = RequestPolicy::single(HTTPAuthorizationSet::new(authz));
    }
    pol
}

/// The policies with the MCP authorization rules put in.
pub(crate) fn finish_backend_policies(
    pol: BackendPolicies,
    authz: Vec<Arc<RuleSet>>,
    Ghost(rules): Ghost<Seq<BackendTrafficPolicy>>,
) -> (r: BackendPolicies)
    requires
        backend_selects(pol, authz@, rules),
        pol.mcp_authorization is None,
    ensures
        backend_policies_of(r, rules),
{
    let mut pol = pol;
    if authz.len() > 0 {
        pol.mcp_authorization = Some(Arc::new(McpAuthorizationSet::new(authz)));
    }
    pol
}

} // verus!
