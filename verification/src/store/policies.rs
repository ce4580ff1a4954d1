//! The policies that apply to a connection, a request or a call of a backend.

use std::sync::Arc;

use vstd::prelude::*;

use crate::ext_proc::{ExtProc, InferencePoolRouter, InferenceRouting};
use crate::mcp::ext_mcp::ExtMcp;
use crate::types::agent::{ListenerName, NamespacedHostname, RouteName, SocketAddr};
use crate::types::frontend::{
    field_expressions, AccessLogPolicy, FrontendPolicy, LoggingPolicy, MetricsFieldsPolicy,
    TracingPolicy,
};
use crate::types::llm;
use crate::types::llm::NamedAIProvider;
use crate::types::policy::{
    first_of, prefer, set_if_none, share, BackendAuth, BackendPolicy, ContextBuilder,
    DirectResponse, Expression, HTTPAuthorizationSet, HeaderModifier, HostRedirectOverride,
    JwtAuthentication, McpAuthentication, McpAuthorizationSet, NetworkAuthorizationSet, OidcPolicy,
    PolicyBody, PolicyExpressions, RateLimits, RequestPolicy, ResponsePolicy, RuleSet,
    TimeoutPolicy,
};

verus! {

// ---------------------------------------------------------------------------------------------
// Frontend policies
// ---------------------------------------------------------------------------------------------

/// The policies of an accepted connection.
#[derive(Debug)]
pub struct FrontendPolices {
    pub http: Option<Arc<PolicyBody>>,
    pub tls: Option<Arc<PolicyBody>>,
    pub tcp: Option<Arc<PolicyBody>>,
    pub network_authorization: Option<NetworkAuthorizationSet>,
    pub proxy: Option<Arc<PolicyBody>>,
    pub access_log: Option<Arc<LoggingPolicy>>,
    pub tracing: Option<Arc<TracingPolicy>>,
    pub access_log_otlp: Option<Arc<AccessLogPolicy>>,
    pub metrics_fields: Option<Arc<MetricsFieldsPolicy>>,
}

/// What a [`FrontendPolices`] holds.
#[verifier::ext_equal]
pub struct FrontendPolicesView {
    pub http: Option<Arc<PolicyBody>>,
    pub tls: Option<Arc<PolicyBody>>,
    pub tcp: Option<Arc<PolicyBody>>,
    pub network_authorization: Option<Seq<Arc<RuleSet>>>,
    pub proxy: Option<Arc<PolicyBody>>,
    pub access_log: Option<Arc<LoggingPolicy>>,
    pub tracing: Option<Arc<TracingPolicy>>,
    pub access_log_otlp: Option<Arc<AccessLogPolicy>>,
    pub metrics_fields: Option<Arc<MetricsFieldsPolicy>>,
}

impl View for FrontendPolices {
    type V = FrontendPolicesView;

    open spec fn view(&self) -> FrontendPolicesView {
        FrontendPolicesView {
            http: self.http,
            tls: self.tls,
            tcp: self.tcp,
            network_authorization: match self.network_authorization {
                Some(s) => Some(s.rule_sets@),
                None => None,
            },
            proxy: self.proxy,
            access_log: self.access_log,
            tracing: self.tracing,
            access_log_otlp: self.access_log_otlp,
            metrics_fields: self.metrics_fields,
        }
    }
}

impl FrontendPolicesView {
    /// No policies.
    pub open spec fn empty() -> FrontendPolicesView {
        FrontendPolicesView {
            http: None,
            tls: None,
            tcp: None,
            network_authorization: None,
            proxy: None,
            access_log: None,
            tracing: None,
            access_log_otlp: None,
            metrics_fields: None,
        }
    }

    /// The policies with one more rule of lower precedence: it fills the field of its kind where
    /// that is empty. Network authorization is not filled but gathered.
    pub open spec fn with(self, rule: FrontendPolicy) -> FrontendPolicesView {
        match rule {
            FrontendPolicy::HTTP(p) => FrontendPolicesView {
                http: first_of(self.http, Some(p)),
                ..self
            },
            FrontendPolicy::TLS(p) => FrontendPolicesView {
                tls: first_of(self.tls, Some(p)),
                ..self
            },
            FrontendPolicy::TCP(p) => FrontendPolicesView {
                tcp: first_of(self.tcp, Some(p)),
                ..self
            },
            FrontendPolicy::NetworkAuthorization(p) => FrontendPolicesView {
                network_authorization: match self.network_authorization {
                    Some(s) => Some(s.push(p)),
                    None => Some(seq![p]),
                },
                ..self
            },
            FrontendPolicy::Proxy(p) => FrontendPolicesView {
                proxy: first_of(self.proxy, Some(p)),
                ..self
            },
            FrontendPolicy::AccessLog(p) => FrontendPolicesView {
                access_log: first_of(self.access_log, Some(p)),
                access_log_otlp: first_of(self.access_log_otlp, p.access_log_policy),
                ..self
            },
            FrontendPolicy::Tracing(p) => FrontendPolicesView {
                tracing: first_of(self.tracing, Some(p)),
                ..self
            },
            FrontendPolicy::Metrics(p) => FrontendPolicesView {
                metrics_fields: first_of(self.metrics_fields, Some(p)),
                ..self
            },
        }
    }

    /// The policies that a sequence of rules comes to, the first taking precedence.
    pub open spec fn of(rules: Seq<FrontendPolicy>) -> FrontendPolicesView
        decreases rules.len(),
    {
        if rules.len() == 0 {
            FrontendPolicesView::empty()
        } else {
            FrontendPolicesView::of(rules.drop_last()).with(rules.last())
        }
    }
}

/// The log expressions of an access log policy and of metrics: the filter, then the added fields.
pub open spec fn frontend_log_expressions(pol: FrontendPolicesView) -> Seq<Arc<Expression>> {
    (match pol.access_log {
        Some(log) => (match log.filter {
            Some(f) => seq![f],
            None => Seq::empty(),
        }) + field_expressions(log.add@),
        None => Seq::empty(),
    }) + (match pol.metrics_fields {
        Some(m) => field_expressions(m.add@),
        None => Seq::empty(),
    })
}

fn register_fields(ctx: &mut ContextBuilder, fields: &Vec<(String, Arc<Expression>)>)
    ensures
        final(ctx).expressions@ == old(ctx).expressions@,
        final(ctx).log_expressions@ == old(ctx).log_expressions@ + field_expressions(fields@),
{
    let ghost exprs = ctx.expressions@;
    let ghost before = ctx.log_expressions@;
    let mut i: usize = 0;
    while i < fields.len()
        invariant
            i <= fields@.len(),
            ctx.expressions@ == exprs,
            ctx.log_expressions@ == before + field_expressions(fields@.take(i as int)),
        decreases fields@.len() - i,
    {
        ctx.register_log_expression(&fields[i].1);
        i = i + 1;
        assert(ctx.log_expressions@ =~= before + field_expressions(fields@.take(i as int)));
    }
    assert(fields@.take(i as int) =~= fields@);
}

impl FrontendPolices {
    /// No policies.
    pub fn empty() -> (r: Self)
        ensures
            r@ == FrontendPolicesView::empty(),
    {
        FrontendPolices {
            http: None,
            tls: None,
            tcp: None,
            network_authorization: None,
            proxy: None,
            access_log: None,
            tracing: None,
            access_log_otlp: None,
            metrics_fields: None,
        }
    }

    /// Adds a rule of lower precedence than those that were added before.
    pub fn set_if_empty(&mut self, rule: &FrontendPolicy)
        ensures
            final(self)@ == old(self)@.with(*rule),
    {
        match rule {
            FrontendPolicy::HTTP(p) => {
                set_if_none(&mut self.http, p);
            },
            FrontendPolicy::TLS(p) => {
                set_if_none(&mut self.tls, p);
            },
            FrontendPolicy::TCP(p) => {
                set_if_none(&mut self.tcp, p);
            },
            FrontendPolicy::NetworkAuthorization(p) => {
                match self.network_authorization.take() {
                    Some(mut existing) => {
                        existing.merge_rule_set(p.clone());
                        self.network_authorization = Some(existing);
                    },
                    None => {
                        self.network_authorization = Some(
                            NetworkAuthorizationSet::new(vec![p.clone()]),
                        );
                    },
                }
            },
            FrontendPolicy::Proxy(p) => {
                set_if_none(&mut self.proxy, p);
            },
            FrontendPolicy::AccessLog(p) => {
                set_if_none(&mut self.access_log, p);
                match &p.access_log_policy {
                    Some(alp) => {
                        set_if_none(&mut self.access_log_otlp, alp);
                    },
                    None => {},
                }
            },
            FrontendPolicy::Tracing(p) => {
                set_if_none(&mut self.tracing, p);
            },
            FrontendPolicy::Metrics(p) => {
                set_if_none(&mut self.metrics_fields, p);
            },
        }
        assert(self@ =~= old(self)@.with(*rule));
    }

    /// Registers the expressions of the access log and of metrics.
    pub fn register_cel_expressions(&self, ctx: &mut ContextBuilder)
        ensures
            final(ctx).expressions@ == old(ctx).expressions@,
            final(ctx).log_expressions@ == old(ctx).log_expressions@ + frontend_log_expressions(
                self@,
            ),
    {
        match &self.access_log {
            Some(log) => {
                match &log.filter {
                    Some(f) => {
                        ctx.register_log_expression(f);
                    },
                    None => {},
                }
                register_fields(ctx, &log.add);
            },
            None => {},
        }
        match &self.metrics_fields {
            Some(mf) => {
                register_fields(ctx, &mf.add);
            },
            None => {},
        }
        assert(ctx.log_expressions@ =~= old(ctx).log_expressions@ + frontend_log_expressions(self@));
    }
}

// ---------------------------------------------------------------------------------------------
// Backend policies
// ---------------------------------------------------------------------------------------------

/// The policies of a call of a backend.
#[derive(Debug)]
pub struct BackendPolicies {
    pub backend_tls: Option<Arc<PolicyBody>>,
    pub backend_auth: Option<Arc<BackendAuth>>,
    pub a2a: Option<Arc<PolicyBody>>,
    pub llm_provider: Option<Arc<NamedAIProvider>>,
    pub llm: Option<Arc<llm::Policy>>,
    pub inference_routing: Option<Arc<InferenceRouting>>,
    pub ext_authz: BackendPolicy<PolicyBody>,
    pub mcp_authorization: Option<Arc<McpAuthorizationSet>>,
    pub mcp_authentication: Option<Arc<McpAuthentication>>,
    pub ext_mcp: Option<Arc<ExtMcp>>,
    pub http: Option<Arc<PolicyBody>>,
    pub tcp: Option<Arc<PolicyBody>>,
    pub tunnel: Option<Arc<PolicyBody>>,
    pub request_header_modifier: Option<Arc<HeaderModifier>>,
    pub response_header_modifier: BackendPolicy<HeaderModifier>,
    pub request_redirect: Option<Arc<PolicyBody>>,
    pub request_mirror: Arc<Vec<Arc<PolicyBody>>>,
    pub transformation: BackendPolicy<PolicyBody>,
    pub session_persistence: Option<Arc<PolicyBody>>,
    pub health: Option<Arc<PolicyBody>>,
    /// Internal-only override for destination endpoint selection, used for stateful MCP routing.
    /// Not exposed through configuration.
    pub override_dest: Option<SocketAddr>,
}

/// The policies of which each field is taken from the first that sets it.
pub open spec fn merged(first: BackendPolicies, second: BackendPolicies) -> BackendPolicies {
    BackendPolicies {
        backend_tls: first_of(first.backend_tls, second.backend_tls),
        backend_auth: first_of(first.backend_auth, second.backend_auth),
        a2a: first_of(first.a2a, second.a2a),
        llm_provider: first_of(first.llm_provider, second.llm_provider),
        llm: first_of(first.llm, second.llm),
        inference_routing: first_of(first.inference_routing, second.inference_routing),
        ext_authz: BackendPolicy {
            policy: first_of(first.ext_authz.policy, second.ext_authz.policy),
        },
        mcp_authorization: first_of(first.mcp_authorization, second.mcp_authorization),
        mcp_authentication: first_of(first.mcp_authentication, second.mcp_authentication),
        ext_mcp: first_of(first.ext_mcp, second.ext_mcp),
        http: first_of(first.http, second.http),
        tcp: first_of(first.tcp, second.tcp),
        tunnel: first_of(first.tunnel, second.tunnel),
        request_header_modifier: first_of(
            first.request_header_modifier,
            second.request_header_modifier,
        ),
        response_header_modifier: BackendPolicy {
            policy: first_of(
                first.response_header_modifier.policy,
                second.response_header_modifier.policy,
            ),
        },
        request_redirect: first_of(first.request_redirect, second.request_redirect),
        request_mirror: if first.request_mirror@.len() == 0 {
            second.request_mirror
        } else {
            first.request_mirror
        },
        transformation: BackendPolicy {
            policy: first_of(first.transformation.policy, second.transformation.policy),
        },
        session_persistence: first_of(first.session_persistence, second.session_persistence),
        health: first_of(first.health, second.health),
        override_dest: first_of(first.override_dest, second.override_dest),
    }
}

/// Merging is associative: policies of three levels merge the same way whichever two meet first.
pub proof fn merge_is_associative(a: BackendPolicies, b: BackendPolicies, c: BackendPolicies)
    ensures
        merged(a, merged(b, c)) == merged(merged(a, b), c),
{
}

/// Merging policies with themselves changes nothing.
pub proof fn merge_is_idempotent(a: BackendPolicies)
    ensures
        merged(a, a) == a,
{
}

impl BackendPolicies {
    /// Nothing is set.
    pub open spec fn is_empty(&self) -> bool {
        &&& self.backend_tls is None
        &&& self.backend_auth is None
        &&& self.a2a is None
        &&& self.llm_provider is None
        &&& self.llm is None
        &&& self.inference_routing is None
        &&& self.ext_authz.policy is None
        &&& self.mcp_authorization is None
        &&& self.mcp_authentication is None
        &&& self.ext_mcp is None
        &&& self.http is None
        &&& self.tcp is None
        &&& self.tunnel is None
        &&& self.request_header_modifier is None
        &&& self.response_header_modifier.policy is None
        &&& self.request_redirect is None
        &&& self.request_mirror@.len() == 0
        &&& self.transformation.policy is None
        &&& self.session_persistence is None
        &&& self.health is None
        &&& self.override_dest is None
    }

    /// No policies.
    pub fn empty() -> (r: Self)
        ensures
            r.is_empty(),
    {
        BackendPolicies {
            backend_tls: None,
            backend_auth: None,
            a2a: None,
            llm_provider: None,
            llm: None,
            inference_routing: None,
            ext_authz: BackendPolicy::unset(),
            mcp_authorization: None,
            mcp_authentication: None,
            ext_mcp: None,
            http: None,
            tcp: None,
            tunnel: None,
            request_header_modifier: None,
            response_header_modifier: BackendPolicy::unset(),
            request_redirect: None,
            request_mirror: Arc::new(Vec::new()),
            transformation: BackendPolicy::unset(),
            session_persistence: None,
            health: None,
            override_dest: None,
        }
    }

    /// Policies that share what these hold.
    pub fn share(&self) -> (r: Self)
        ensures
            r == *self,
    {
        BackendPolicies {
            backend_tls: share(&self.backend_tls),
            backend_auth: share(&self.backend_auth),
            a2a: share(&self.a2a),
            llm_provider: share(&self.llm_provider),
            llm: share(&self.llm),
            inference_routing: share(&self.inference_routing),
            ext_authz: self.ext_authz.share(),
            mcp_authorization: share(&self.mcp_authorization),
            mcp_authentication: share(&self.mcp_authentication),
            ext_mcp: share(&self.ext_mcp),
            http: share(&self.http),
            tcp: share(&self.tcp),
            tunnel: share(&self.tunnel),
            request_header_modifier: share(&self.request_header_modifier),
            response_header_modifier: self.response_header_modifier.share(),
            request_redirect: share(&self.request_redirect),
            request_mirror: self.request_mirror.clone(),
            transformation: self.transformation.share(),
            session_persistence: share(&self.session_persistence),
            health: share(&self.health),
            override_dest: self.override_dest,
        }
    }

    /// Merges these policies with others. The others have precedence.
    pub fn merge(self, other: BackendPolicies) -> (r: BackendPolicies)
        ensures
            r == merged(other, self),
    {
        BackendPolicies {
            backend_tls: prefer(other.backend_tls, self.backend_tls),
            backend_auth: prefer(other.backend_auth, self.backend_auth),
            a2a: prefer(other.a2a, self.a2a),
            llm_provider: prefer(other.llm_provider, self.llm_provider),
            llm: prefer(other.llm, self.llm),
            mcp_authorization: prefer(other.mcp_authorization, self.mcp_authorization),
            mcp_authentication: prefer(other.mcp_authentication, self.mcp_authentication),
            ext_mcp: prefer(other.ext_mcp, self.ext_mcp),
            inference_routing: prefer(other.inference_routing, self.inference_routing),
            ext_authz: other.ext_authz.or(self.ext_authz),
            http: prefer(other.http, self.http),
            tcp: prefer(other.tcp, self.tcp),
            tunnel: prefer(other.tunnel, self.tunnel),
            request_header_modifier: prefer(
                other.request_header_modifier,
                self.request_header_modifier,
            ),
            response_header_modifier: other.response_header_modifier.or(
                self.response_header_modifier,
            ),
            request_redirect: prefer(other.request_redirect, self.request_redirect),
            request_mirror: if other.request_mirror.len() == 0 {
                self.request_mirror
            } else {
                other.request_mirror
            },
            transformation: other.transformation.or(self.transformation),
            session_persistence: prefer(other.session_persistence, self.session_persistence),
            health: prefer(other.health, self.health),
            override_dest: prefer(other.override_dest, self.override_dest),
        }
    }

    /// The router of inference requests. Without inference routing it routes nothing.
    pub fn build_inference(&self) -> (r: InferencePoolRouter)
        ensures
            match self.inference_routing {
                Some(routing) => (*routing).routes(r),
                None => r == InferencePoolRouter::inactive(),
            },
    {
        match &self.inference_routing {
            Some(inference) => inference.build(),
            None => InferencePoolRouter::none(),
        }
    }

    /// Registers the expressions of external authorization and of transformations.
    pub fn register_cel_expressions(&self, ctx: &mut ContextBuilder)
        ensures
            final(ctx).expressions@ == old(ctx).expressions@ + self.ext_authz.registered()
                + self.transformation.registered(),
            final(ctx).log_expressions@ == old(ctx).log_expressions@,
    {
        self.ext_authz.register_expressions(ctx);
        self.transformation.register_expressions(ctx);
    }
}

// ---------------------------------------------------------------------------------------------
// Route and gateway policies
// ---------------------------------------------------------------------------------------------

/// The policies of a request on its route.
#[derive(Debug)]
pub struct RoutePolicies {
    pub local_rate_limit: RequestPolicy<RateLimits>,
    pub remote_rate_limit: RequestPolicy<PolicyBody>,
    pub authorization: RequestPolicy<HTTPAuthorizationSet>,
    pub jwt: RequestPolicy<JwtAuthentication>,
    pub oidc: RequestPolicy<OidcPolicy>,
    pub basic_auth: RequestPolicy<PolicyBody>,
    pub api_key: RequestPolicy<PolicyBody>,
    pub ext_authz: RequestPolicy<PolicyBody>,
    pub ext_proc: RequestPolicy<ExtProc>,
    pub transformation: RequestPolicy<PolicyBody>,
    pub csrf: RequestPolicy<PolicyBody>,
    pub direct_response: RequestPolicy<DirectResponse>,
    pub llm: Option<Arc<llm::Policy>>,
    pub timeout: Option<Arc<TimeoutPolicy>>,
    pub retry: Option<Arc<PolicyBody>>,
    pub request_header_modifier: RequestPolicy<HeaderModifier>,
    pub response_header_modifier: ResponsePolicy<HeaderModifier>,
    pub request_redirect: RequestPolicy<PolicyBody>,
    pub url_rewrite: RequestPolicy<PolicyBody>,
    pub hostname_rewrite: Option<HostRedirectOverride>,
    pub request_mirror: Arc<Vec<Arc<PolicyBody>>>,
    pub cors: RequestPolicy<PolicyBody>,
}

/// The policies of a request before a route is chosen.
#[derive(Debug)]
pub struct GatewayPolicies {
    pub ext_proc: RequestPolicy<ExtProc>,
    pub oidc: RequestPolicy<OidcPolicy>,
    pub jwt: RequestPolicy<JwtAuthentication>,
    pub ext_authz: RequestPolicy<PolicyBody>,
    pub transformation: RequestPolicy<PolicyBody>,
    pub basic_auth: RequestPolicy<PolicyBody>,
    pub api_key: RequestPolicy<PolicyBody>,
}

/// A policy whose expressions are registered, of any family.
#[derive(Debug)]
pub enum PolicyRef<'a> {
    Authorization(&'a RequestPolicy<HTTPAuthorizationSet>),
    Body(&'a RequestPolicy<PolicyBody>),
    DirectResponse(&'a RequestPolicy<DirectResponse>),
    ExtProc(&'a RequestPolicy<ExtProc>),
    HeaderModifier(&'a RequestPolicy<HeaderModifier>),
    Jwt(&'a RequestPolicy<JwtAuthentication>),
    Oidc(&'a RequestPolicy<OidcPolicy>),
    RateLimits(&'a RequestPolicy<RateLimits>),
}

impl<'a> PolicyExpressions for PolicyRef<'a> {
    open spec fn registered(&self) -> Seq<Arc<Expression>> {
        match self {
            PolicyRef::Authorization(p) => p.registered(),
            PolicyRef::Body(p) => p.registered(),
            PolicyRef::DirectResponse(p) => p.registered(),
            PolicyRef::ExtProc(p) => p.registered(),
            PolicyRef::HeaderModifier(p) => p.registered(),
            PolicyRef::Jwt(p) => p.registered(),
            PolicyRef::Oidc(p) => p.registered(),
            PolicyRef::RateLimits(p) => p.registered(),
        }
    }

    fn register_expressions(&self, ctx: &mut ContextBuilder) {
        match self {
            PolicyRef::Authorization(p) => p.register_expressions(ctx),
            PolicyRef::Body(p) => p.register_expressions(ctx),
            PolicyRef::DirectResponse(p) => p.register_expressions(ctx),
            PolicyRef::ExtProc(p) => p.register_expressions(ctx),
            PolicyRef::HeaderModifier(p) => p.register_expressions(ctx),
            PolicyRef::Jwt(p) => p.register_expressions(ctx),
            PolicyRef::Oidc(p) => p.register_expressions(ctx),
            PolicyRef::RateLimits(p) => p.register_expressions(ctx),
        }
    }
}

/// The expressions of the policies before `n`, in order.
pub open spec fn all_registered(policies: Seq<PolicyRef<'_>>, n: int) -> Seq<Arc<Expression>>
    decreases n,
{
    if n <= 0 {
        Seq::empty()
    } else {
        all_registered(policies, n - 1) + policies[n - 1].registered()
    }
}

fn register_each(policies: &Vec<PolicyRef<'_>>, ctx: &mut ContextBuilder)
    ensures
        final(ctx).expressions@ == old(ctx).expressions@ + all_registered(
            policies@,
            policies@.len() as int,
        ),
        final(ctx).log_expressions@ == old(ctx).log_expressions@,
{
    let ghost before = ctx.expressions@;
    let ghost logs = ctx.log_expressions@;
    let mut i: usize = 0;
    assert(before + all_registered(policies@, 0) =~= before);
    while i < policies.len()
        invariant
            i <= policies@.len(),
            ctx.expressions@ == before + all_registered(policies@, i as int),
            ctx.log_expressions@ == logs,
        decreases policies@.len() - i,
    {
        policies[i].register_expressions(ctx);
        i = i + 1;
        assert(ctx.expressions@ =~= before + all_registered(policies@, i as int));
    }
}

impl GatewayPolicies {
    /// The policies that hold expressions.
    pub open spec fn listed(&self) -> Seq<PolicyRef<'_>> {
        seq![
            PolicyRef::ExtProc(&self.ext_proc),
            PolicyRef::Oidc(&self.oidc),
            PolicyRef::Jwt(&self.jwt),
            PolicyRef::Body(&self.ext_authz),
            PolicyRef::Body(&self.transformation),
            PolicyRef::Body(&self.basic_auth),
            PolicyRef::Body(&self.api_key),
        ]
    }

    /// The policies that hold expressions.
    pub fn iter(&self) -> (r: Vec<PolicyRef<'_>>)
        ensures
            r@ == self.listed(),
    {
        vec![
            PolicyRef::ExtProc(&self.ext_proc),
            PolicyRef::Oidc(&self.oidc),
            PolicyRef::Jwt(&self.jwt),
            PolicyRef::Body(&self.ext_authz),
            PolicyRef::Body(&self.transformation),
            PolicyRef::Body(&self.basic_auth),
            PolicyRef::Body(&self.api_key),
        ]
    }

    /// Registers the expressions of all the policies.
    pub fn register_cel_expressions(&self, ctx: &mut ContextBuilder)
        ensures
            final(ctx).expressions@ == old(ctx).expressions@ + all_registered(
                self.listed(),
                self.listed().len() as int,
            ),
            final(ctx).log_expressions@ == old(ctx).log_expressions@,
    {
        let policies = self.iter();
        register_each(&policies, ctx);
    }
}

impl RoutePolicies {
    /// The policies that hold expressions.
    pub open spec fn listed(&self) -> Seq<PolicyRef<'_>> {
        seq![
            PolicyRef::RateLimits(&self.local_rate_limit),
            PolicyRef::Body(&self.remote_rate_limit),
            PolicyRef::Authorization(&self.authorization),
            PolicyRef::Jwt(&self.jwt),
            PolicyRef::Oidc(&self.oidc),
            PolicyRef::Body(&self.basic_auth),
            PolicyRef::Body(&self.api_key),
            PolicyRef::Body(&self.ext_authz),
            PolicyRef::ExtProc(&self.ext_proc),
            PolicyRef::Body(&self.transformation),
            PolicyRef::Body(&self.csrf),
            PolicyRef::DirectResponse(&self.direct_response),
            PolicyRef::HeaderModifier(&self.request_header_modifier),
            PolicyRef::Body(&self.request_redirect),
            PolicyRef::Body(&self.url_rewrite),
            PolicyRef::Body(&self.cors),
        ]
    }

    /// The policies that hold expressions.
    pub fn iter(&self) -> (r: Vec<PolicyRef<'_>>)
        ensures
            r@ == self.listed(),
    {
        vec![
            PolicyRef::RateLimits(&self.local_rate_limit),
            PolicyRef::Body(&self.remote_rate_limit),
            PolicyRef::Authorization(&self.authorization),
            PolicyRef::Jwt(&self.jwt),
            PolicyRef::Oidc(&self.oidc),
            PolicyRef::Body(&self.basic_auth),
            PolicyRef::Body(&self.api_key),
            PolicyRef::Body(&self.ext_authz),
            PolicyRef::ExtProc(&self.ext_proc),
            PolicyRef::Body(&self.transformation),
            PolicyRef::Body(&self.csrf),
            PolicyRef::DirectResponse(&self.direct_response),
            PolicyRef::HeaderModifier(&self.request_header_modifier),
            PolicyRef::Body(&self.request_redirect),
            PolicyRef::Body(&self.url_rewrite),
            PolicyRef::Body(&self.cors),
        ]
    }

    /// Registers the expressions of all the policies.
    pub fn register_cel_expressions(&self, ctx: &mut ContextBuilder)
        ensures
            final(ctx).expressions@ == old(ctx).expressions@ + all_registered(
                self.listed(),
                self.listed().len() as int,
            ),
            final(ctx).log_expressions@ == old(ctx).log_expressions@,
    {
        let policies = self.iter();
        register_each(&policies, ctx);
    }
}

// ---------------------------------------------------------------------------------------------
// LLM policies
// ---------------------------------------------------------------------------------------------

/// The policies of a request to a language model.
#[derive(Debug)]
pub struct LLMRequestPolicies {
    pub local_rate_limit: Option<Arc<RateLimits>>,
    pub remote_rate_limit: Option<Arc<PolicyBody>>,
    pub llm: Option<Arc<llm::Policy>>,
}

/// The policies of the response of a language model.
#[derive(Debug)]
pub struct LLMResponsePolicies {
    pub local_rate_limit: Vec<Arc<PolicyBody>>,
    pub remote_rate_limit: Option<Arc<PolicyBody>>,
    pub request_traceparent: Option<String>,
    pub prompt_guard: Vec<Arc<PolicyBody>>,
}

/// A route's model policy and a backend's, the backend's taking precedence. The aliases are taken
/// from one of the two as a whole, with the patterns that belong to them.
pub open spec fn merged_llm(backend: llm::Policy, route: llm::Policy) -> llm::Policy {
    llm::Policy {
        prompt_guard: first_of(backend.prompt_guard, route.prompt_guard),
        defaults: first_of(backend.defaults, route.defaults),
        overrides: first_of(backend.overrides, route.overrides),
        transformations: first_of(backend.transformations, route.transformations),
        prompts: first_of(backend.prompts, route.prompts),
        model_aliases: if backend.model_aliases@.len() == 0 {
            route.model_aliases
        } else {
            backend.model_aliases
        },
        wildcard_patterns: if backend.model_aliases@.len() == 0 {
            route.wildcard_patterns
        } else {
            backend.wildcard_patterns
        },
        prompt_caching: first_of(backend.prompt_caching, route.prompt_caching),
        routes: if backend.routes@.len() == 0 {
            route.routes
        } else {
            backend.routes
        },
    }
}

impl LLMRequestPolicies {
    /// The policies with those of the backend merged in.
    pub open spec fn merged(self, be: Option<Arc<llm::Policy>>) -> LLMRequestPolicies {
        LLMRequestPolicies {
            llm: match (be, self.llm) {
                (Some(b), Some(r)) => Some(Arc::new(merged_llm(*b, *r))),
                (Some(b), None) => Some(b),
                (None, r) => r,
            },
            ..self
        }
    }

    /// Merges the model policy of a backend into that of the route. The backend's has precedence.
    pub fn merge_backend_policies(self, be: Option<Arc<llm::Policy>>) -> (r: LLMRequestPolicies)
        ensures
            r == self.merged(be),
    {
        let be = match be {
            Some(be) => be,
            None => {
                return self;
            },
        };
        let re = match self.llm {
            Some(re) => re,
            None => {
                return LLMRequestPolicies {
                    local_rate_limit: self.local_rate_limit,
                    remote_rate_limit: self.remote_rate_limit,
                    llm: Some(be),
                };
            },
        };
        let from_route = be.model_aliases.len() == 0;
        let merged = llm::Policy {
            prompt_guard: prefer(share(&be.prompt_guard), share(&re.prompt_guard)),
            defaults: prefer(share(&be.defaults), share(&re.defaults)),
            overrides: prefer(share(&be.overrides), share(&re.overrides)),
            transformations: prefer(share(&be.transformations), share(&re.transformations)),
            prompts: prefer(share(&be.prompts), share(&re.prompts)),
            model_aliases: if from_route {
                re.model_aliases.clone()
            } else {
                be.model_aliases.clone()
            },
            wildcard_patterns: if from_route {
                re.wildcard_patterns.clone()
            } else {
                be.wildcard_patterns.clone()
            },
            prompt_caching: prefer(share(&be.prompt_caching), share(&re.prompt_caching)),
            routes: if be.routes.len() == 0 {
                re.routes.clone()
            } else {
                be.routes.clone()
            },
        };
        LLMRequestPolicies {
            local_rate_limit: self.local_rate_limit,
            remote_rate_limit: self.remote_rate_limit,
            llm: Some(Arc::new(merged)),
        }
    }
}

/// Merging backend policies in leaves the rate limits alone, and a backend without a model policy
/// leaves everything alone.
pub proof fn llm_merge_keeps_rate_limits(p: LLMRequestPolicies, be: Option<Arc<llm::Policy>>)
    ensures
        p.merged(be).local_rate_limit == p.local_rate_limit,
        p.merged(be).remote_rate_limit == p.remote_rate_limit,
        p.merged(None) == p,
{
}

/// The objects traversed to reach a route.
#[derive(Debug)]
pub struct RoutePath<'a> {
    pub listener: &'a ListenerName,
    /// The originally intended service, before routing.
    pub service: Option<&'a NamespacedHostname>,
    /// The routes, from the first to the one that was reached.
    pub routes: Vec<&'a RouteName>,
}

impl<'a> RoutePath<'a> {
    /// The route that was reached.
    pub fn final_route(&self) -> (r: Option<&'a RouteName>)
        ensures
            match r {
                Some(n) => self.routes@.len() > 0 && n == self.routes@.last(),
                None => self.routes@.len() == 0,
            },
    {
        if self.routes.len() == 0 {
            None
        } else {
            Some(self.routes[self.routes.len() - 1])
        }
    }
}

} // verus!
