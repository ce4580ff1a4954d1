//! Laws of the gateway's resources and policies: what is seen of a value is what it holds, what
//! rules admit, and which expressions policies need.

use std::sync::Arc;

use vstd::prelude::*;

use crate::text::{decimal, opt_text, opt_view, padded_decimal, texts};
use crate::types::agent::{
    Backend, BackendReference, BackendReferenceView, BackendTarget, BackendView,
    BackendWithPolicies, Bind, HeaderMatch, HeaderOrPseudo, HeaderOrPseudoView, HeaderValueMatch,
    HeaderValueMatchView, Listener, ListenerName, ListenerProtocol, ListenerProtocolView,
    ListenerTarget, McpBackend, McpTarget, McpTargetSpec, McpTargetSpecView, NamespacedHostname,
    PathMatch, PathMatchView, PolicyTarget, PolicyTargetView, ResourceName, Route,
    RouteBackendReference, RouteBackendTarget, RouteBackendTargetView, RouteMatch, RouteName,
    ServerTLSConfig, SimpleBackend, SimpleBackendReference, SimpleBackendReferenceView,
    SimpleBackendWithPolicies, SocketAddr, TCPRoute, TCPRouteBackendReference, Target,
    TargetedPolicy, TypedResourceName,
};
use crate::types::llm;
use crate::types::llm::{AIBackend, NamedAIProvider};
use crate::types::policy::{
    admits, AuthorizationSet, BackendPolicy, DirectResponse, HasExpressions, HeaderModifier,
    OidcPolicy, PolicyId, PolicyIdView, RateLimits, RequestPolicy, RuleOutcome, RuleSet,
};
use crate::types::policy::{entry_expressions, rule_set_expressions, Expression};
use crate::types::policy::PolicyExpressions;
use crate::types::traffic::{PolicyType, PolicyTypeView, TrafficPolicy, TrafficPolicyView};

verus! {

// ---------------------------------------------------------------------------------------------
// What is seen of a value
// ---------------------------------------------------------------------------------------------

/// What is seen of names and targets is what they hold.
pub proof fn names_are_seen_as_they_are(
    target: Target,
    name: ResourceName,
    host: NamespacedHostname,
    listener: ListenerName,
    route: RouteName,
    gateway: ListenerTarget,
)
    ensures
        target@.host == target.host@ && target@.port == target.port,
        name@.name == name.name@ && name@.namespace == name.namespace@,
        host@.namespace == host.namespace@ && host@.hostname == host.hostname@,
        listener@.gateway_name == listener.gateway_name@,
        listener@.gateway_namespace == listener.gateway_namespace@,
        listener@.listener_name == listener.listener_name@,
        listener@.listener_set == opt_view(listener.listener_set),
        route@.name == route.name@ && route@.namespace == route.namespace@,
        route@.rule_name == opt_text(route.rule_name) && route@.kind == opt_text(route.kind),
        gateway@.gateway_name == gateway.gateway_name@,
        gateway@.gateway_namespace == gateway.gateway_namespace@,
        gateway@.listener_name == opt_text(gateway.listener_name),
        gateway@.port == gateway.port,
{
}

/// What is seen of the target of a policy is what the target is.
pub proof fn policy_targets_are_seen_as_they_are(t: PolicyTarget)
    ensures
        match t {
            PolicyTarget::Gateway(g) => t@ == PolicyTargetView::Gateway(g@),
            PolicyTarget::ListenerSet(l) => t@ == (PolicyTargetView::ListenerSet {
                name: l.name@,
                namespace: l.namespace@,
                section: opt_text(l.section),
            }),
            PolicyTarget::Route(r) => t@ == PolicyTargetView::Route(r@),
            PolicyTarget::Backend(BackendTarget::Backend { name, namespace, section }) => t@ == (
            PolicyTargetView::Backend {
                name: name@,
                namespace: namespace@,
                section: opt_text(section),
            }),
            PolicyTarget::Backend(BackendTarget::Service { hostname, namespace, port }) => t@ == (
            PolicyTargetView::Service { hostname: hostname@, namespace: namespace@, port }),
            PolicyTarget::Backend(BackendTarget::Invalid) => t@ is InvalidBackend,
        },
{
}

/// What is seen of a bind, of a listener and of the TLS settings of a server is what they hold.
pub proof fn binds_are_seen_as_they_are(
    bind: Bind,
    listener: Listener,
    protocol: ListenerProtocol,
    tls: ServerTLSConfig,
)
    ensures
        bind@.key == bind.key@ && bind@.address == bind.address,
        bind@.protocol == bind.protocol && bind@.tunnel_protocol == bind.tunnel_protocol,
        bind@.listeners == bind.listeners@,
        listener@.key == listener.key@ && listener@.name == listener.name@,
        listener@.hostname == listener.hostname@ && listener@.protocol == listener.protocol@,
        match protocol {
            ListenerProtocol::HTTP => protocol@ is HTTP,
            ListenerProtocol::HTTPS(t) => protocol@ == ListenerProtocolView::HTTPS((*t)@),
            ListenerProtocol::TLS(Some(t)) => protocol@ == ListenerProtocolView::TLS(Some((*t)@)),
            ListenerProtocol::TLS(None) => protocol@ == ListenerProtocolView::TLS(None),
            ListenerProtocol::TCP => protocol@ is TCP,
            ListenerProtocol::HBONE => protocol@ is HBONE,
        },
        tls@.cert == tls.cert@ && tls@.key == tls.key@ && tls@.alpn == texts(tls.alpn@),
        tls.root is None ==> tls@.root is None,
        tls.root matches Some(r) ==> tls@.root == Some(r@),
        tls@.min_version == tls.min_version && tls@.max_version == tls.max_version,
{
}

/// What is seen of a route and of what it matches is what they hold, item by item.
pub proof fn routes_are_seen_as_they_are(
    r: Route,
    t: TCPRoute,
    m: RouteMatch,
    h: HeaderMatch,
    i: int,
)
    ensures
        r@.key == r.key@ && r@.service_key == opt_view(r.service_key) && r@.name == r.name@,
        r@.hostnames.len() == r.hostnames@.len(),
        0 <= i < r.hostnames@.len() ==> r@.hostnames[i] == r.hostnames@[i]@,
        r@.matches.len() == r.matches@.len(),
        0 <= i < r.matches@.len() ==> r@.matches[i] == r.matches@[i]@,
        r@.inline_policies.len() == r.inline_policies@.len(),
        0 <= i < r.inline_policies@.len() ==> r@.inline_policies[i] == r.inline_policies@[i]@,
        r@.backends.len() == r.backends@.len(),
        0 <= i < r.backends@.len() ==> r@.backends[i] == r.backends@[i]@,
        t@.key == t.key@ && t@.service_key == opt_view(t.service_key) && t@.name == t.name@,
        t@.hostnames.len() == t.hostnames@.len(),
        0 <= i < t.hostnames@.len() ==> t@.hostnames[i] == t.hostnames@[i]@,
        t@.backends.len() == t.backends@.len(),
        0 <= i < t.backends@.len() ==> t@.backends[i] == t.backends@[i]@,
        m@.headers.len() == m.headers@.len(),
        0 <= i < m.headers@.len() ==> m@.headers[i] == (*m.headers@[i])@,
        m@.path == m.path@ && m@.method == opt_text(m.method) && m@.query == m.query@,
        h@.name == h.name@ && h@.value == h.value@,
        match h.value {
            HeaderValueMatch::Exact(v) => h@.value == HeaderValueMatchView::Exact(v@),
            HeaderValueMatch::Regex(v) => h@.value == HeaderValueMatchView::Regex(v@),
        },
        match m.path {
            PathMatch::Exact(p) => m@.path == PathMatchView::Exact(p@),
            PathMatch::PathPrefix(p) => m@.path == PathMatchView::PathPrefix(p@),
            PathMatch::Regex(p) => m@.path == PathMatchView::Regex(p@),
        },
{
}

/// What is seen of a reference to a backend is what it refers to, with its weight and policies.
pub proof fn references_are_seen_as_they_are(
    r: RouteBackendReference,
    t: TCPRouteBackendReference,
    target: RouteBackendTarget,
    b: BackendReference,
    s: SimpleBackendReference,
    i: int,
)
    ensures
        r@.weight == r.weight && r@.target == r.target@,
        r@.inline_policies.len() == r.inline_policies@.len(),
        0 <= i < r.inline_policies@.len() ==> r@.inline_policies[i] == r.inline_policies@[i]@,
        t@.weight == t.weight && t@.backend == t.backend@,
        t@.inline_policies.len() == t.inline_policies@.len(),
        0 <= i < t.inline_policies@.len() ==> t@.inline_policies[i] == t.inline_policies@[i]@,
        match target {
            RouteBackendTarget::Backend(x) => target@ == RouteBackendTargetView::Backend(x@),
            RouteBackendTarget::RouteGroup(g) => target@ == RouteBackendTargetView::RouteGroup(g@),
        },
        match b {
            BackendReference::Service { name, port } => b@ == (BackendReferenceView::Service {
                name: name@,
                port,
            }),
            BackendReference::Backend(k) => b@ == BackendReferenceView::Backend(k@),
            BackendReference::Invalid => b@ is Invalid,
        },
        match s {
            SimpleBackendReference::Service { name, port } => s@ == (
            SimpleBackendReferenceView::Service { name: name@, port }),
            SimpleBackendReference::Backend(k) => s@ == SimpleBackendReferenceView::Backend(k@),
            SimpleBackendReference::InlineBackend(x) => s@
                == SimpleBackendReferenceView::InlineBackend(x@),
            SimpleBackendReference::Invalid => s@ is Invalid,
        },
{
}

/// What is seen of a backend is what it is, with its policies, and of its targets and providers
/// what they hold.
pub proof fn backends_are_seen_as_they_are(
    b: BackendWithPolicies,
    backend: Backend,
    m: McpBackend,
    t: McpTarget,
    spec: McpTargetSpec,
    a: AIBackend,
    p: NamedAIProvider,
    i: int,
    j: int,
)
    ensures
        b@.backend == b.backend@,
        b@.inline_policies.len() == b.inline_policies@.len(),
        0 <= i < b.inline_policies@.len() ==> b@.inline_policies[i] == b.inline_policies@[i]@,
        match backend {
            Backend::Service(n, port) => backend@ == BackendView::Service(n@, port),
            Backend::Opaque(n, x) => backend@ == BackendView::Opaque(n@, x@),
            Backend::MCP(n, x) => backend@ == BackendView::MCP(n@, x@),
            Backend::AI(n, x) => backend@ == BackendView::AI(n@, x@),
            Backend::Aws(n, c) => backend@ == BackendView::Aws(n@, c),
            Backend::Dynamic(n) => backend@ == BackendView::Dynamic(n@),
            Backend::Invalid => backend@ is Invalid,
        },
        m@.targets.len() == m.targets@.len(),
        0 <= i < m.targets@.len() ==> m@.targets[i] == (*m.targets@[i])@,
        m@.stateful == m.stateful && m@.always_use_prefix == m.always_use_prefix,
        m@.failure_mode == m.failure_mode && m@.session_idle_ttl == m.session_idle_ttl,
        t@.name == t.name@ && t@.spec == (*t.spec)@,
        match spec {
            McpTargetSpec::Sse { backend, path } => spec@ == (McpTargetSpecView::Sse {
                backend: backend@,
                path: path@,
            }),
            McpTargetSpec::Mcp { backend, path } => spec@ == (McpTargetSpecView::Mcp {
                backend: backend@,
                path: path@,
            }),
            McpTargetSpec::Stdio { cmd, args, env, clear_env } => spec@
                matches McpTargetSpecView::Stdio { cmd: c, args: x, env: e, clear_env: f } && c
                == cmd@ && x == texts(args@) && e.len() == env@.len() && (0 <= i < env@.len()
                ==> e[i] == (env@[i].0@, env@[i].1@)) && f == clear_env,
            McpTargetSpec::OpenAPI { backend, schema } => spec@ == (McpTargetSpecView::OpenAPI {
                backend: backend@,
                schema,
            }),
        },
        a@.len() == a.providers@.len(),
        0 <= i < a.providers@.len() ==> a@[i].len() == a.providers@[i]@.len(),
        0 <= i < a.providers@.len() && 0 <= j < a.providers@[i]@.len() ==> a@[i][j] == (
            a.providers@[i]@[j].0@,
            a.providers@[i]@[j].1@,
        ),
        p@.name == p.name@ && p@.provider == p.provider && p@.tokenize == p.tokenize,
        p@.host_override == opt_view(p.host_override),
        p@.path_override == opt_text(p.path_override),
        p@.path_prefix == opt_text(p.path_prefix),
        p@.inline_policies.len() == p.inline_policies@.len(),
        0 <= i < p.inline_policies@.len() ==> p@.inline_policies[i] == p.inline_policies@[i]@,
{
}

/// What is seen of an attached policy is its key, its name, its target and what it is.
pub proof fn attached_policies_are_seen_as_they_are(t: TargetedPolicy, p: PolicyType)
    ensures
        t@.key == t.key@ && t@.name == opt_view(t.name),
        t@.target == t.target@ && t@.policy == t.policy@,
        match p {
            PolicyType::Frontend(x) => p@ == PolicyTypeView::Frontend(x),
            PolicyType::Traffic(x, phase) => p@ == PolicyTypeView::Traffic(x@, phase),
            PolicyType::Backend(x) => p@ == PolicyTypeView::Backend(x@),
        },
{
}

/// What is seen of a change of headers is what it adds, sets and removes, in order; of a model
/// policy each of its parts.
pub proof fn modifiers_are_seen_as_they_are(h: HeaderModifier, p: llm::Policy, i: int)
    ensures
        h@.add.len() == h.add@.len() && h@.set.len() == h.set@.len(),
        0 <= i < h.add@.len() ==> h@.add[i] == (h.add@[i].0@, h.add@[i].1@),
        0 <= i < h.set@.len() ==> h@.set[i] == (h.set@[i].0@, h.set@[i].1@),
        h@.remove.len() == h.remove@.len(),
        0 <= i < h.remove@.len() ==> h@.remove[i] == h.remove@[i]@,
        p@.prompt_guard == p.prompt_guard && p@.defaults == p.defaults,
        p@.overrides == p.overrides && p@.transformations == p.transformations,
        p@.prompts == p.prompts && p@.prompt_caching == p.prompt_caching,
        p@.model_aliases.len() == p.model_aliases@.len(),
        0 <= i < p.model_aliases@.len() ==> p@.model_aliases[i] == (
            p.model_aliases@[i].0@,
            p.model_aliases@[i].1@,
        ),
        p@.wildcard_patterns.len() == p.wildcard_patterns@.len(),
        0 <= i < p.wildcard_patterns@.len() ==> p@.wildcard_patterns[i] == (
            p.wildcard_patterns@[i].0@,
            p.wildcard_patterns@[i].1@,
        ),
        p@.routes.len() == p.routes@.len(),
        0 <= i < p.routes@.len() ==> p@.routes[i] == (p.routes@[i].0@, p.routes@[i].1),
{
}

/// What is seen of a policy of requests: nothing if it is unset, one entry without a condition if
/// it always applies, and else its entries in order with their conditions.
pub proof fn request_policies_are_seen_as_they_are<T: View>(p: RequestPolicy<T>, i: int)
    ensures
        p is Unset ==> p@.len() == 0,
        p matches RequestPolicy::Single(x) ==> p@.len() == 1 && p@[0].0 == (*x)@ && p@[0].1 is None,
        p matches RequestPolicy::Conditional(list) ==> {
            &&& p@.len() == list@.len()
            &&& 0 <= i < list@.len() ==> p@[i].0 == (*list@[i].policy)@ && (list@[i].condition
                is Some <==> p@[i].1 is Some) && (list@[i].condition is Some ==> p@[i].1->0
                == *list@[i].condition->0)
        },
{
}

/// What is seen of a policy of requests is of the same kind, with what it holds.
pub proof fn traffic_policies_are_seen_as_they_are(t: TrafficPolicy)
    ensures
        match t {
            TrafficPolicy::LocalRateLimit(p) => t@ == TrafficPolicyView::LocalRateLimit(p@),
            TrafficPolicy::ExtAuthz(p) => t@ == TrafficPolicyView::ExtAuthz(p@),
            TrafficPolicy::ExtProc(p) => t@ == TrafficPolicyView::ExtProc(p@),
            TrafficPolicy::RemoteRateLimit(p) => t@ == TrafficPolicyView::RemoteRateLimit(p@),
            TrafficPolicy::JwtAuth(p) => t@ == TrafficPolicyView::JwtAuth(p@),
            TrafficPolicy::Oidc(p) => t@ == TrafficPolicyView::Oidc(p@),
            TrafficPolicy::BasicAuth(p) => t@ == TrafficPolicyView::BasicAuth(p@),
            TrafficPolicy::APIKey(p) => t@ == TrafficPolicyView::APIKey(p@),
            TrafficPolicy::Transformation(p) => t@ == TrafficPolicyView::Transformation(p@),
            TrafficPolicy::Csrf(p) => t@ == TrafficPolicyView::Csrf(p@),
            TrafficPolicy::RequestHeaderModifier(p) => t@
                == TrafficPolicyView::RequestHeaderModifier(p@),
            TrafficPolicy::RequestRedirect(p) => t@ == TrafficPolicyView::RequestRedirect(p@),
            TrafficPolicy::UrlRewrite(p) => t@ == TrafficPolicyView::UrlRewrite(p@),
            TrafficPolicy::DirectResponse(p) => t@ == TrafficPolicyView::DirectResponse(p@),
            TrafficPolicy::CORS(p) => t@ == TrafficPolicyView::CORS(p@),
            TrafficPolicy::Authorization(p) => t@ == TrafficPolicyView::Authorization(p),
            TrafficPolicy::AI(p) => t@ == TrafficPolicyView::AI((*p)@),
            TrafficPolicy::Timeout(p) => t@ == TrafficPolicyView::Timeout(p),
            TrafficPolicy::Retry(p) => t@ == TrafficPolicyView::Retry(p),
            TrafficPolicy::ResponseHeaderModifier(p) => t@
                == TrafficPolicyView::ResponseHeaderModifier((*p)@),
            TrafficPolicy::HostRewrite(p) => t@ == TrafficPolicyView::HostRewrite(p),
            TrafficPolicy::RequestMirror(p) => t@ == TrafficPolicyView::RequestMirror((*p)@),
        },
{
}

// ---------------------------------------------------------------------------------------------
// What rules admit
// ---------------------------------------------------------------------------------------------

/// A rule set that denies, or whose requirement does not hold, keeps everything out, whatever the
/// others allow.
pub proof fn denial_keeps_out(rule_sets: Seq<Arc<RuleSet>>, holds: Seq<RuleOutcome>, i: int)
    requires
        0 <= i < rule_sets.len(),
        holds.len() == rule_sets.len(),
        holds[i].denied || !holds[i].required,
    ensures
        !admits(rule_sets, holds),
{
}

/// Where no rule set denies and every requirement holds, everything is admitted if no rule set
/// names what it allows; else what one of them allows is admitted, and nothing else is.
pub proof fn allowed_is_admitted(rule_sets: Seq<Arc<RuleSet>>, holds: Seq<RuleOutcome>, i: int)
    requires
        holds.len() == rule_sets.len(),
        forall|j: int|
            0 <= j < rule_sets.len() ==> !(#[trigger] holds[j]).denied && holds[j].required,
    ensures
        (forall|j: int| 0 <= j < rule_sets.len() ==> (#[trigger] rule_sets[j]).allow@.len() == 0)
            ==> admits(rule_sets, holds),
        0 <= i < rule_sets.len() && rule_sets[i].allow@.len() > 0 && holds[i].allowed ==> admits(
            rule_sets,
            holds,
        ),
        0 <= i < rule_sets.len() && rule_sets[i].allow@.len() > 0 && (forall|j: int|
            0 <= j < rule_sets.len() && (#[trigger] rule_sets[j]).allow@.len() > 0
                ==> !holds[j].allowed) ==> !admits(rule_sets, holds),
{
}

// ---------------------------------------------------------------------------------------------
// Which expressions policies need
// ---------------------------------------------------------------------------------------------

/// A policy of requests needs the condition of each of its entries and the expressions of each
/// entry's policy.
pub proof fn entries_need_their_expressions<T: HasExpressions>(
    p: RequestPolicy<T>,
    i: int,
    e: Arc<Expression>,
)
    requires
        0 <= i < p.entries().len(),
        p.entries()[i].condition == Some(e) || (*p.entries()[i].policy).expression_list().contains(
            e,
        ),
    ensures
        p.registered().contains(e),
        p is Unset ==> p.registered().len() == 0,
{
    lemma_entries(p.entries(), p.entries().len() as int, i, e);
}

proof fn lemma_entries<T: HasExpressions>(
    entries: Seq<crate::types::policy::ConditionalEntry<T>>,
    n: int,
    i: int,
    e: Arc<Expression>,
)
    requires
        0 <= i < n <= entries.len(),
        entries[i].condition == Some(e) || (*entries[i].policy).expression_list().contains(e),
    ensures
        entry_expressions(entries, n).contains(e),
    decreases n,
{
    let before = entry_expressions(entries, n - 1);
    let c = match entries[n - 1].condition {
        Some(c) => seq![c],
        None => Seq::empty(),
    };
    let own = (*entries[n - 1].policy).expression_list();
    let all = entry_expressions(entries, n);
    assert(all == before + c + own);
    if i < n - 1 {
        lemma_entries(entries, n - 1, i, e);
        assert(all[before.index_of(e)] == e);
    } else if entries[i].condition == Some(e) {
        assert(c[0] == e);
        assert(all[before.len() as int] == e);
    } else {
        assert(all[before.len() + c.len() + own.index_of(e)] == e);
    }
}

/// A policy of backends needs the expressions of the policy that it holds.
pub proof fn backend_policies_need_their_expressions<T: HasExpressions>(p: BackendPolicy<T>)
    ensures
        p.policy is None ==> p.registered().len() == 0,
        p.policy matches Some(x) ==> p.registered() == (*x).expression_list(),
{
}

/// Authorization needs every expression of every rule set, whether it allows, denies or requires.
pub proof fn authorization_needs_all_its_rules(set: AuthorizationSet, i: int, e: Arc<Expression>)
    requires
        0 <= i < set.rule_sets@.len(),
        set.rule_sets@[i].allow@.contains(e) || set.rule_sets@[i].deny@.contains(e)
            || set.rule_sets@[i].require@.contains(e),
    ensures
        set.expression_list().contains(e),
{
    lemma_rule_sets(set.rule_sets@, set.rule_sets@.len() as int, i, e);
}

proof fn lemma_rule_sets(rule_sets: Seq<Arc<RuleSet>>, n: int, i: int, e: Arc<Expression>)
    requires
        0 <= i < n <= rule_sets.len(),
        rule_sets[i].allow@.contains(e) || rule_sets[i].deny@.contains(e)
            || rule_sets[i].require@.contains(e),
    ensures
        rule_set_expressions(rule_sets, n).contains(e),
    decreases n,
{
    let before = rule_set_expressions(rule_sets, n - 1);
    let a = rule_sets[n - 1].allow@;
    let d = rule_sets[n - 1].deny@;
    let r = rule_sets[n - 1].require@;
    let all = rule_set_expressions(rule_sets, n);
    assert(all == before + (a + d + r));
    if i < n - 1 {
        lemma_rule_sets(rule_sets, n - 1, i, e);
        assert(all[before.index_of(e)] == e);
    } else if a.contains(e) {
        assert(all[before.len() + a.index_of(e)] == e);
    } else if d.contains(e) {
        assert(all[before.len() + a.len() + d.index_of(e)] == e);
    } else {
        assert(all[before.len() + a.len() + d.len() + r.index_of(e)] == e);
    }
}

/// Rate limits need the expressions of each of them.
pub proof fn rate_limits_need_their_expressions(limits: RateLimits, i: int, e: Arc<Expression>)
    requires
        0 <= i < limits.limits@.len(),
        limits.limits@[i].expressions@.contains(e),
    ensures
        limits.expression_list().contains(e),
{
    lemma_bodies(limits.limits@, limits.limits@.len() as int, i, e);
}

proof fn lemma_bodies(
    bodies: Seq<Arc<crate::types::policy::PolicyBody>>,
    n: int,
    i: int,
    e: Arc<Expression>,
)
    requires
        0 <= i < n <= bodies.len(),
        bodies[i].expressions@.contains(e),
    ensures
        crate::types::policy::body_expressions(bodies, n).contains(e),
    decreases n,
{
    let before = crate::types::policy::body_expressions(bodies, n - 1);
    let own = bodies[n - 1].expressions@;
    let all = crate::types::policy::body_expressions(bodies, n);
    assert(all == before + own);
    if i < n - 1 {
        lemma_bodies(bodies, n - 1, i, e);
        assert(all[before.index_of(e)] == e);
    } else {
        assert(all[before.len() + own.index_of(e)] == e);
    }
}

// ---------------------------------------------------------------------------------------------
// Numbers as text
// ---------------------------------------------------------------------------------------------

/// A number is written with its decimal digits: a digit that is added on the right multiplies the
/// number by ten and adds the digit. A padded number has zeros on the left up to its width.
pub proof fn numbers_are_written_in_decimal(n: nat, d: nat, width: nat, i: int)
    requires
        d < 10,
    ensures
        decimal(d) == seq![(48 + d) as char],
        n > 0 ==> decimal(10 * n + d) == decimal(n).push((48 + d) as char),
        padded_decimal(n, width).len() == (if decimal(n).len() < width {
            width
        } else {
            decimal(n).len()
        }),
        ({
            let zeros = padded_decimal(n, width).len() - decimal(n).len();
            &&& 0 <= i < zeros ==> padded_decimal(n, width)[i] == '0'
            &&& 0 <= i < decimal(n).len() ==> padded_decimal(n, width)[zeros + i] == decimal(n)[i]
        }),
{
    assert((10 * n + d) / 10 == n && (10 * n + d) % 10 == d) by (nonlinear_arith)
        requires
            d < 10,
    ;
}

/// A target can be attached to unless it is a gateway of which it names both a listener and a port.
pub proof fn only_mixed_targets_are_refused(t: ListenerTarget, target: PolicyTarget)
    ensures
        t.listener_name is Some && t.port is Some ==> !t.valid(),
        t.listener_name is None ==> t.valid(),
        t.port is None ==> t.valid(),
        target == PolicyTarget::Gateway(t) ==> (target.valid() <==> t.valid()),
        !(target is Gateway) ==> target.valid(),
{
}

/// An address stands for every address of the host exactly if all of its bits are zero, whatever
/// the port.
pub proof fn only_zero_stands_for_every_address(ip: u32, ip6: u128, port: u16, flow: u32, scope: u32)
    ensures
        (SocketAddr::V4 { ip, port }).unspecified() <==> ip == 0,
        (SocketAddr::V6 { ip: ip6, port, flowinfo: flow, scope_id: scope }).unspecified() <==> ip6
            == 0,
        (SocketAddr::V4 { ip, port }).port_of() == port,
        (SocketAddr::V6 { ip: ip6, port, flowinfo: flow, scope_id: scope }).port_of() == port,
{
}

/// What is seen of simple backends, of header names, of direct responses and of what OpenID Connect
/// needs is what they hold.
pub proof fn further_values_are_seen_as_they_are(
    name: TypedResourceName,
    header: HeaderOrPseudo,
    backend: SimpleBackend,
    with_policies: SimpleBackendWithPolicies,
    direct: DirectResponse,
    id: PolicyId,
    oidc: OidcPolicy,
    i: int,
)
    ensures
        name@.kind == name.kind@ && name@.name == name.name@ && name@.namespace == name.namespace@,
        match header {
            HeaderOrPseudo::Header(n) => header@ == HeaderOrPseudoView::Header(n@),
            HeaderOrPseudo::Method => header@ is Method,
            HeaderOrPseudo::Scheme => header@ is Scheme,
            HeaderOrPseudo::Authority => header@ is Authority,
            HeaderOrPseudo::Path => header@ is Path,
            HeaderOrPseudo::Status => header@ is Status,
        },
        match backend {
            SimpleBackend::Service(n, port) => backend@ == BackendView::Service(n@, port),
            SimpleBackend::Opaque(n, t) => backend@ == BackendView::Opaque(n@, t@),
            SimpleBackend::Invalid => backend@ is Invalid,
        },
        with_policies@.backend == with_policies.backend@,
        with_policies@.inline_policies.len() == with_policies.inline_policies@.len(),
        0 <= i < with_policies.inline_policies@.len() ==> with_policies@.inline_policies[i]
            == with_policies.inline_policies@[i]@,
        direct@.0 == direct.body@,
        direct@.1 == direct.status,
        match id {
            PolicyId::Route(k) => id@ == PolicyIdView::Route(k@),
            PolicyId::Policy(k) => id@ == PolicyIdView::Policy(k@),
        },
        oidc@.policy_id == oidc.policy_id@,
        oidc@.provider == oidc.provider,
        oidc@.cookie_encoder == oidc.cookie_encoder,
{
}

} // verus!
