//! Policies of routes and gateways, as a configuration writes them.

use std::sync::Arc;

use vstd::prelude::*;

use crate::ext_proc::ExtProc;
use crate::local::conditional::{
    unconditional, LocalExplicitOrConditional, LocalRateLimitPolicy, LocalTransformationPolicy,
};
use crate::local::error::{
    add_opt, extend, load, load_refusal, loaded, one, push_opt, ConfigError, Loaded,
};
use crate::mcp::ext_mcp::ExtMcp;
use crate::text::{lemma_views, opt_view, views, Text};
use crate::types::llm;
use crate::types::policy::{
    always, first_of, BackendAuth, DirectResponse, Encoder, HeaderModifier, JwtAuthentication,
    McpAuthentication, OidcPolicy, OidcPolicyView, PolicyBody, PolicyId, PolicyIdView,
    RequestPolicy, RuleSet, TimeoutPolicy,
};
use crate::types::traffic::{BackendTrafficPolicy, TrafficPolicy, TrafficPolicyView};

verus! {

/// A policy of requests, or of the backends that they go to, or several.
#[derive(Debug)]
pub struct FilterOrPolicy {
    /// Headers to be modified in the request.
    pub request_header_modifier: Option<HeaderModifier>,
    /// Headers to be modified in the response.
    pub response_header_modifier: Option<Arc<HeaderModifier>>,
    /// Directly respond to the request with a redirect.
    pub request_redirect: Option<PolicyBody>,
    /// Modify the URL path or authority.
    pub url_rewrite: Option<PolicyBody>,
    /// Mirror incoming requests to another destination.
    pub request_mirror: Option<Arc<PolicyBody>>,
    /// Directly respond to the request with a static response.
    pub direct_response: Option<LocalExplicitOrConditional<DirectResponse>>,
    /// Handle CORS preflight requests.
    pub cors: Option<PolicyBody>,
    /// Authorization policies for MCP access.
    pub mcp_authorization: Option<Arc<RuleSet>>,
    /// Authorization policies for HTTP access.
    pub authorization: Option<Arc<RuleSet>>,
    /// Authentication for MCP clients.
    pub mcp_authentication: Option<Loaded<McpAuthentication>>,
    /// Mark this traffic as A2A.
    pub a2a: Option<Arc<PolicyBody>>,
    /// Mark this as LLM traffic. The patterns of its aliases are compiled.
    pub ai: Option<Arc<llm::Policy>>,
    /// Send TLS to the backend.
    pub backend_tls: Option<Loaded<PolicyBody>>,
    /// Tunnel to the backend.
    pub backend_tunnel: Option<Arc<PolicyBody>>,
    /// Authenticate to the backend.
    pub backend_auth: Option<Arc<BackendAuth>>,
    /// Rate limit incoming requests. State is kept local.
    pub local_rate_limit: Option<LocalRateLimitPolicy>,
    /// Rate limit incoming requests. State is managed by a remote server.
    pub remote_rate_limit: Option<LocalExplicitOrConditional<PolicyBody>>,
    /// Authenticate incoming JWT requests.
    pub jwt_auth: Option<Loaded<PolicyBody>>,
    /// Authenticate browser requests by the authorization code flow of OpenID Connect.
    pub oidc: Option<Loaded<PolicyBody>>,
    /// Authenticate incoming requests by Basic Authentication.
    pub basic_auth: Option<Loaded<PolicyBody>>,
    /// Authenticate incoming requests by API keys.
    pub api_key: Option<PolicyBody>,
    /// Authenticate incoming requests by calling an external authorization server.
    pub ext_authz: Option<LocalExplicitOrConditional<PolicyBody>>,
    /// An external processor.
    pub ext_proc: Option<LocalExplicitOrConditional<ExtProc>>,
    /// An external processor of MCP requests.
    pub ext_mcp: Option<Arc<ExtMcp>>,
    /// Modify requests and responses.
    pub transformations: Option<LocalTransformationPolicy>,
    /// Validate the origins of requests.
    pub csrf: Option<PolicyBody>,
    /// Timeout requests that take too long.
    pub timeout: Option<Arc<TimeoutPolicy>>,
    /// Retry matching requests.
    pub retry: Option<Arc<PolicyBody>>,
}

/// The policies of requests that a gateway can have before it chooses a route.
#[derive(Debug)]
pub struct LocalGatewayPolicy {
    /// Authenticate browser requests by the authorization code flow of OpenID Connect.
    pub oidc: Option<Loaded<PolicyBody>>,
    /// Authenticate incoming JWT requests.
    pub jwt_auth: Option<Loaded<PolicyBody>>,
    /// Authenticate incoming requests by calling an external authorization server.
    pub ext_authz: Option<LocalExplicitOrConditional<PolicyBody>>,
    /// An external processor.
    pub ext_proc: Option<LocalExplicitOrConditional<ExtProc>>,
    /// An external processor of MCP requests.
    pub ext_mcp: Option<Arc<ExtMcp>>,
    /// Modify requests and responses.
    pub transformations: Option<LocalTransformationPolicy>,
    /// Authenticate incoming requests by Basic Authentication.
    pub basic_auth: Option<Loaded<PolicyBody>>,
    /// Authenticate incoming requests by API keys.
    pub api_key: Option<PolicyBody>,
}

/// The policies that a configuration comes to, by what they attach to.
#[derive(Debug)]
pub struct ResolvedPolicies {
    pub backend_policies: Vec<BackendTrafficPolicy>,
    pub route_policies: Vec<TrafficPolicy>,
}

/// What a policy is attached to, as far as OpenID Connect needs to know.
#[derive(Debug)]
pub struct AttachedPolicyContext {
    pub oidc_policy_id: PolicyId,
    pub oidc_cookie_encoder: Option<Arc<Encoder>>,
}

/// What an [`AttachedPolicyContext`] holds.
pub struct AttachedPolicyContextView {
    pub oidc_policy_id: PolicyIdView,
    pub oidc_cookie_encoder: Option<Arc<Encoder>>,
}

impl View for AttachedPolicyContext {
    type V = AttachedPolicyContextView;

    open spec fn view(&self) -> AttachedPolicyContextView {
        AttachedPolicyContextView {
            oidc_policy_id: self.oidc_policy_id@,
            oidc_cookie_encoder: self.oidc_cookie_encoder,
        }
    }
}

/// The filters of requests.
#[derive(Debug)]
pub struct Filters {
    pub request_header_modifier: Option<HeaderModifier>,
    pub response_header_modifier: Option<Arc<HeaderModifier>>,
    pub request_redirect: Option<PolicyBody>,
    pub url_rewrite: Option<PolicyBody>,
    pub request_mirror: Option<Arc<PolicyBody>>,
    pub direct_response: Option<LocalExplicitOrConditional<DirectResponse>>,
    pub cors: Option<PolicyBody>,
}

/// The policies of the backends that requests go to.
#[derive(Debug)]
pub struct BackendPart {
    pub mcp_authorization: Option<Arc<RuleSet>>,
    pub a2a: Option<Arc<PolicyBody>>,
    pub backend_tls: Option<Loaded<PolicyBody>>,
    pub backend_tunnel: Option<Arc<PolicyBody>>,
    pub backend_auth: Option<Arc<BackendAuth>>,
    pub ext_mcp: Option<Arc<ExtMcp>>,
}

/// The policies of requests that are attached last.
#[derive(Debug)]
pub struct LatePart {
    pub transformations: Option<LocalTransformationPolicy>,
    pub csrf: Option<PolicyBody>,
    pub authorization: Option<Arc<RuleSet>>,
    pub ext_authz: Option<LocalExplicitOrConditional<PolicyBody>>,
    pub ext_proc: Option<LocalExplicitOrConditional<ExtProc>>,
    pub local_rate_limit: Option<LocalRateLimitPolicy>,
    pub remote_rate_limit: Option<LocalExplicitOrConditional<PolicyBody>>,
    pub timeout: Option<Arc<TimeoutPolicy>>,
    pub retry: Option<Arc<PolicyBody>>,
}

impl Filters {
    /// Why the filters are refused, if they are.
    pub open spec fn refusal(self) -> Option<Text> {
        match self.direct_response {
            Some(p) => p.refusal(),
            None => None,
        }
    }

    /// The filters of requests, in the order in which they are attached.
    pub open spec fn rules(self) -> Seq<TrafficPolicyView> {
        Seq::<TrafficPolicyView>::empty() + one(
            match self.request_header_modifier {
                Some(p) => Some(TrafficPolicyView::RequestHeaderModifier(always(p@))),
                None => None,
            },
        ) + one(
            match self.response_header_modifier {
                Some(p) => Some(TrafficPolicyView::ResponseHeaderModifier((*p)@)),
                None => None,
            },
        ) + one(
            match self.request_redirect {
                Some(p) => Some(TrafficPolicyView::RequestRedirect(always(p))),
                None => None,
            },
        ) + one(
            match self.url_rewrite {
                Some(p) => Some(TrafficPolicyView::UrlRewrite(always(p))),
                None => None,
            },
        ) + one(
            match self.request_mirror {
                Some(p) => Some(TrafficPolicyView::RequestMirror(seq![p])),
                None => None,
            },
        ) + one(
            match self.direct_response {
                Some(p) => Some(TrafficPolicyView::DirectResponse(p.policy())),
                None => None,
            },
        ) + one(
            match self.cors {
                Some(p) => Some(TrafficPolicyView::CORS(always(p))),
                None => None,
            },
        )
    }
}

impl LatePart {
    /// Why the policies that are read last are refused, if they are.
    pub open spec fn refusal(self) -> Option<Text> {
        first_of(
            match self.transformations {
                Some(p) => p.transformation_refusal(),
                None => None,
            },
            first_of(
                match self.ext_authz {
                    Some(p) => p.refusal(),
                    None => None,
                },
                first_of(
                    match self.ext_proc {
                        Some(p) => p.refusal(),
                        None => None,
                    },
                    first_of(
                        match self.local_rate_limit {
                            Some(p) => if p.none() {
                                None
                            } else {
                                p.refusal()
                            },
                            None => None,
                        },
                        match self.remote_rate_limit {
                            Some(p) => p.refusal(),
                            None => None,
                        },
                    ),
                ),
            ),
        )
    }

    /// The policies that are attached last, in order.
    pub open spec fn rules(self) -> Seq<TrafficPolicyView> {
        Seq::<TrafficPolicyView>::empty() + one(
            match self.transformations {
                Some(p) => Some(TrafficPolicyView::Transformation(p.transformation())),
                None => None,
            },
        ) + one(
            match self.csrf {
                Some(p) => Some(TrafficPolicyView::Csrf(always(p))),
                None => None,
            },
        ) + one(
            match self.authorization {
                Some(p) => Some(TrafficPolicyView::Authorization(p)),
                None => None,
            },
        ) + one(
            match self.ext_authz {
                Some(p) => Some(TrafficPolicyView::ExtAuthz(p.policy())),
                None => None,
            },
        ) + one(
            match self.ext_proc {
                Some(p) => Some(TrafficPolicyView::ExtProc(p.policy())),
                None => None,
            },
        ) + one(
            match self.local_rate_limit {
                Some(p) => if p.none() {
                    None
                } else {
                    Some(TrafficPolicyView::LocalRateLimit(p.policy()))
                },
                None => None,
            },
        ) + one(
            match self.remote_rate_limit {
                Some(p) => Some(TrafficPolicyView::RemoteRateLimit(p.policy())),
                None => None,
            },
        ) + one(
            match self.timeout {
                Some(p) => Some(TrafficPolicyView::Timeout(p)),
                None => None,
            },
        ) + one(
            match self.retry {
                Some(p) => Some(TrafficPolicyView::Retry(p)),
                None => None,
            },
        )
    }
}

impl BackendPart {
    /// The policies of backends, in the order in which they are attached.
    pub open spec fn rules(self) -> Seq<BackendTrafficPolicy> {
        Seq::<BackendTrafficPolicy>::empty() + one(
            match self.mcp_authorization {
                Some(p) => Some(BackendTrafficPolicy::McpAuthorization(p)),
                None => None,
            },
        ) + one(
            match self.a2a {
                Some(p) => Some(BackendTrafficPolicy::A2a(p)),
                None => None,
            },
        ) + one(
            match loaded(self.backend_tls) {
                Some(p) => Some(BackendTrafficPolicy::BackendTLS(p)),
                None => None,
            },
        ) + one(
            match self.backend_tunnel {
                Some(p) => Some(BackendTrafficPolicy::Tunnel(p)),
                None => None,
            },
        ) + one(
            match self.backend_auth {
                Some(p) => Some(BackendTrafficPolicy::BackendAuth(p)),
                None => None,
            },
        ) + one(
            match self.ext_mcp {
                Some(p) => Some(BackendTrafficPolicy::ExtMcp(p)),
                None => None,
            },
        )
    }
}

impl FilterOrPolicy {
    /// Nothing is set.
    pub open spec fn nothing() -> Self {
        FilterOrPolicy {
            request_header_modifier: None,
            response_header_modifier: None,
            request_redirect: None,
            url_rewrite: None,
            request_mirror: None,
            direct_response: None,
            cors: None,
            mcp_authorization: None,
            authorization: None,
            mcp_authentication: None,
            a2a: None,
            ai: None,
            backend_tls: None,
            backend_tunnel: None,
            backend_auth: None,
            local_rate_limit: None,
            remote_rate_limit: None,
            jwt_auth: None,
            oidc: None,
            basic_auth: None,
            api_key: None,
            ext_authz: None,
            ext_proc: None,
            ext_mcp: None,
            transformations: None,
            csrf: None,
            timeout: None,
            retry: None,
        }
    }

    /// The policies with no more set than what a gateway can have.
    pub open spec fn of_gateway(val: LocalGatewayPolicy) -> Self {
        FilterOrPolicy {
            oidc: val.oidc,
            jwt_auth: val.jwt_auth,
            ext_authz: val.ext_authz,
            ext_proc: val.ext_proc,
            ext_mcp: val.ext_mcp,
            transformations: val.transformations,
            basic_auth: val.basic_auth,
            api_key: val.api_key,
            ..FilterOrPolicy::nothing()
        }
    }

    /// Why OpenID Connect is refused, if it is: it must be attached to something, the gateway needs
    /// a secret for its cookies, and the provider must be known.
    pub open spec fn oidc_refusal(self, attached: Option<AttachedPolicyContextView>) -> Option<Text> {
        match (self.oidc, attached) {
            (None, _) => None,
            (Some(_), None) => Some("oidc policies must be attached"@),
            (Some(provider), Some(context)) => if context.oidc_cookie_encoder is None {
                Some("OIDC_COOKIE_SECRET is required when oidc is configured"@)
            } else {
                load_refusal(Some(provider))
            },
        }
    }

    /// The policy of OpenID Connect, if it is set.
    pub open spec fn oidc_rule(
        self,
        attached: Option<AttachedPolicyContextView>,
    ) -> Option<TrafficPolicyView> {
        match self.oidc {
            Some(provider) => Some(
                TrafficPolicyView::Oidc(
                    always(
                        OidcPolicyView {
                            policy_id: attached->0.oidc_policy_id,
                            provider: provider->Ok_0,
                            cookie_encoder: attached->0.oidc_cookie_encoder->0,
                        },
                    ),
                ),
            ),
            None => None,
        }
    }

    /// Why the policies are refused, if they are. Where there is more than one reason, the first in
    /// this order counts.
    pub open spec fn refusal(self, attached: Option<AttachedPolicyContextView>) -> Option<Text> {
        first_of(
            self.filters().refusal(),
            first_of(
                load_refusal(self.mcp_authentication),
                first_of(
                    load_refusal(self.backend_tls),
                    first_of(
                        load_refusal(self.jwt_auth),
                        first_of(
                            self.oidc_refusal(attached),
                            first_of(load_refusal(self.basic_auth), self.late_part().refusal()),
                        ),
                    ),
                ),
            ),
        )
    }

    /// The policies of requests, in the order in which they are attached.
    pub open spec fn route_rules(self, attached: Option<AttachedPolicyContextView>) -> Seq<
        TrafficPolicyView,
    > {
        self.filters().rules() + self.authentication_rules() + self.late_part().rules() + one(
            self.oidc_rule(attached),
        )
    }

    /// The policies that tell who a request is from, but for OpenID Connect, in the order in which
    /// they are attached.
    pub open spec fn authentication_rules(self) -> Seq<TrafficPolicyView> {
        Seq::<TrafficPolicyView>::empty() + one(
            match loaded(self.mcp_authentication) {
                Some(p) => Some(TrafficPolicyView::JwtAuth(always(JwtAuthentication { jwt: p.jwt_validator, mcp: Some(p) }))),
                None => None,
            },
        ) + one(
            match self.ai {
                Some(p) => Some(TrafficPolicyView::AI((*p)@)),
                None => None,
            },
        ) + one(
            match loaded(self.jwt_auth) {
                Some(p) => Some(TrafficPolicyView::JwtAuth(always(JwtAuthentication { jwt: p, mcp: None }))),
                None => None,
            },
        ) + one(
            match loaded(self.basic_auth) {
                Some(p) => Some(TrafficPolicyView::BasicAuth(always(*p))),
                None => None,
            },
        ) + one(
            match self.api_key {
                Some(p) => Some(TrafficPolicyView::APIKey(always(p))),
                None => None,
            },
        )
    }

    /// The filters among the policies.
    pub open spec fn filters(self) -> Filters {
        Filters {
            request_header_modifier: self.request_header_modifier,
            response_header_modifier: self.response_header_modifier,
            request_redirect: self.request_redirect,
            url_rewrite: self.url_rewrite,
            request_mirror: self.request_mirror,
            direct_response: self.direct_response,
            cors: self.cors,
        }
    }

    /// The policies of backends among the policies.
    pub open spec fn backend_part(self) -> BackendPart {
        BackendPart {
            mcp_authorization: self.mcp_authorization,
            a2a: self.a2a,
            backend_tls: self.backend_tls,
            backend_tunnel: self.backend_tunnel,
            backend_auth: self.backend_auth,
            ext_mcp: self.ext_mcp,
        }
    }

    /// The policies among them that are attached last.
    pub open spec fn late_part(self) -> LatePart {
        LatePart {
            transformations: self.transformations,
            csrf: self.csrf,
            authorization: self.authorization,
            ext_authz: self.ext_authz,
            ext_proc: self.ext_proc,
            local_rate_limit: self.local_rate_limit,
            remote_rate_limit: self.remote_rate_limit,
            timeout: self.timeout,
            retry: self.retry,
        }
    }

    /// The policies of backends, in the order in which they are attached.
    pub open spec fn backend_rules(self) -> Seq<BackendTrafficPolicy> {
        self.backend_part().rules()
    }

    /// Nothing is set.
    pub fn empty() -> (r: Self)
        ensures
            r == FilterOrPolicy::nothing(),
    {
        FilterOrPolicy {
            request_header_modifier: None,
            response_header_modifier: None,
            request_redirect: None,
            url_rewrite: None,
            request_mirror: None,
            direct_response: None,
            cors: None,
            mcp_authorization: None,
            authorization: None,
            mcp_authentication: None,
            a2a: None,
            ai: None,
            backend_tls: None,
            backend_tunnel: None,
            backend_auth: None,
            local_rate_limit: None,
            remote_rate_limit: None,
            jwt_auth: None,
            oidc: None,
            basic_auth: None,
            api_key: None,
            ext_authz: None,
            ext_proc: None,
            ext_mcp: None,
            transformations: None,
            csrf: None,
            timeout: None,
            retry: None,
        }
    }
}

impl From<LocalGatewayPolicy> for FilterOrPolicy {
    fn from(val: LocalGatewayPolicy) -> (r: Self) {
        let mut r = FilterOrPolicy::empty();
        r.oidc = val.oidc;
        r.jwt_auth = val.jwt_auth;
        r.ext_authz = val.ext_authz;
        r.ext_proc = val.ext_proc;
        r.ext_mcp = val.ext_mcp;
        r.transformations = val.transformations;
        r.basic_auth = val.basic_auth;
        r.api_key = val.api_key;
        r
    }
}

impl vstd::std_specs::convert::FromSpecImpl<LocalGatewayPolicy> for FilterOrPolicy {
    open spec fn obeys_from_spec() -> bool {
        true
    }

    open spec fn from_spec(val: LocalGatewayPolicy) -> Self {
        FilterOrPolicy::of_gateway(val)
    }
}

fn mirror(p: Arc<PolicyBody>) -> (r: TrafficPolicy)
    ensures
        r@ == TrafficPolicyView::RequestMirror(seq![p]),
{
    let list = vec![p];
    assert(list@ =~= seq![p]);
    TrafficPolicy::RequestMirror(Arc::new(list))
}

fn shared(p: Arc<PolicyBody>) -> (r: RequestPolicy<PolicyBody>)
    ensures
        r@ == always(*p),
{
    let r = RequestPolicy::Single(p);
    assert(r@ =~= always(*p));
    r
}

fn compile_oidc(
    provider: Loaded<PolicyBody>,
    attached: Option<AttachedPolicyContext>,
) -> (r: Result<TrafficPolicy, ConfigError>)
    ensures
        ({
            let pol = FilterOrPolicy { oidc: Some(provider), ..FilterOrPolicy::nothing() };
            match r {
                Ok(p) => pol.oidc_refusal(opt_view(attached)) is None && Some(p@) == pol.oidc_rule(opt_view(attached)),
                Err(e) => pol.oidc_refusal(opt_view(attached)) == Some(e@),
            }
        }),
{
    let context = match attached {
        Some(c) => c,
        None => {
            return Err(ConfigError::new("oidc policies must be attached"));
        },
    };
    let cookie_encoder = match context.oidc_cookie_encoder {
        Some(e) => e,
        None => {
            return Err(
                ConfigError::new("OIDC_COOKIE_SECRET is required when oidc is configured"),
            );
        },
    };
    let provider = match provider {
        Ok(p) => p,
        Err(e) => {
            return Err(ConfigError::of(e));
        },
    };
    let policy = OidcPolicy { policy_id: context.oidc_policy_id, provider, cookie_encoder };
    Ok(TrafficPolicy::Oidc(unconditional(policy)))
}

fn split_filters(pol: Filters) -> (r: Result<Vec<TrafficPolicy>, ConfigError>)
    ensures
        r matches Ok(out) ==> out@.len() <= 7,
        match r {
            Ok(out) => pol.refusal() is None && views(out@) == pol.rules(),
            Err(e) => pol.refusal() == Some(e@),
        },
{
    let mut out: Vec<TrafficPolicy> = Vec::new();
    assert(views(out@) =~= Seq::<TrafficPolicyView>::empty());
    add_opt(
        &mut out,
        match pol.request_header_modifier {
            Some(p) => Some(TrafficPolicy::RequestHeaderModifier(unconditional(p))),
            None => None,
        },
    );
    add_opt(
        &mut out,
        match pol.response_header_modifier {
            Some(p) => Some(TrafficPolicy::ResponseHeaderModifier(p)),
            None => None,
        },
    );
    add_opt(
        &mut out,
        match pol.request_redirect {
            Some(p) => Some(TrafficPolicy::RequestRedirect(unconditional(p))),
            None => None,
        },
    );
    add_opt(
        &mut out,
        match pol.url_rewrite {
            Some(p) => Some(TrafficPolicy::UrlRewrite(unconditional(p))),
            None => None,
        },
    );
    add_opt(
        &mut out,
        match pol.request_mirror {
            Some(p) => Some(mirror(p)),
            None => None,
        },
    );
    add_opt(
        &mut out,
        match pol.direct_response {
            Some(p) => Some(TrafficPolicy::DirectResponse(p.into_policy()?)),
            None => None,
        },
    );
    add_opt(
        &mut out,
        match pol.cors {
            Some(p) => Some(TrafficPolicy::CORS(unconditional(p))),
            None => None,
        },
    );
    Ok(out)
}

fn split_late(pol: LatePart) -> (r: Result<Vec<TrafficPolicy>, ConfigError>)
    ensures
        r matches Ok(out) ==> out@.len() <= 9,
        match r {
            Ok(out) => pol.refusal() is None && views(out@) == pol.rules(),
            Err(e) => pol.refusal() == Some(e@),
        },
{
    let mut out: Vec<TrafficPolicy> = Vec::new();
    assert(views(out@) =~= Seq::<TrafficPolicyView>::empty());
    add_opt(
        &mut out,
        match pol.transformations {
            Some(p) => Some(TrafficPolicy::Transformation(p.into_transformation_policy()?)),
            None => None,
        },
    );
    add_opt(
        &mut out,
        match pol.csrf {
            Some(p) => Some(TrafficPolicy::Csrf(unconditional(p))),
            None => None,
        },
    );
    add_opt(
        &mut out,
        match pol.authorization {
            Some(p) => Some(TrafficPolicy::Authorization(p)),
            None => None,
        },
    );
    add_opt(
        &mut out,
        match pol.ext_authz {
            Some(p) => Some(TrafficPolicy::ExtAuthz(p.into_policy()?)),
            None => None,
        },
    );
    add_opt(
        &mut out,
        match pol.ext_proc {
            Some(p) => Some(TrafficPolicy::ExtProc(p.into_policy()?)),
            None => None,
        },
    );
    add_opt(
        &mut out,
        match pol.local_rate_limit {
            Some(p) => {
                if p.is_empty() {
                    None
                } else {
                    Some(TrafficPolicy::LocalRateLimit(p.into_request_policy()?))
                }
            },
            None => None,
        },
    );
    add_opt(
        &mut out,
        match pol.remote_rate_limit {
            Some(p) => Some(TrafficPolicy::RemoteRateLimit(p.into_policy()?)),
            None => None,
        },
    );
    add_opt(
        &mut out,
        match pol.timeout {
            Some(p) => Some(TrafficPolicy::Timeout(p)),
            None => None,
        },
    );
    add_opt(
        &mut out,
        match pol.retry {
            Some(p) => Some(TrafficPolicy::Retry(p)),
            None => None,
        },
    );
    Ok(out)
}

fn split_backend(pol: BackendPart) -> (r: Result<Vec<BackendTrafficPolicy>, ConfigError>)
    ensures
        match r {
            Ok(out) => load_refusal(pol.backend_tls) is None && out@ == pol.rules(),
            Err(e) => load_refusal(pol.backend_tls) == Some(e@),
        },
{
    let mut out: Vec<BackendTrafficPolicy> = Vec::new();
    push_opt(
        &mut out,
        match pol.mcp_authorization {
            Some(p) => Some(BackendTrafficPolicy::McpAuthorization(p)),
            None => None,
        },
    );
    push_opt(
        &mut out,
        match pol.a2a {
            Some(p) => Some(BackendTrafficPolicy::A2a(p)),
            None => None,
        },
    );
    push_opt(
        &mut out,
        match load(pol.backend_tls)? {
            Some(p) => Some(BackendTrafficPolicy::BackendTLS(p)),
            None => None,
        },
    );
    push_opt(
        &mut out,
        match pol.backend_tunnel {
            Some(p) => Some(BackendTrafficPolicy::Tunnel(p)),
            None => None,
        },
    );
    push_opt(
        &mut out,
        match pol.backend_auth {
            Some(p) => Some(BackendTrafficPolicy::BackendAuth(p)),
            None => None,
        },
    );
    push_opt(
        &mut out,
        match pol.ext_mcp {
            Some(p) => Some(BackendTrafficPolicy::ExtMcp(p)),
            None => None,
        },
    );
    Ok(out)
}

/// The policies that a configuration comes to, in the order in which they are attached. `attached`
/// is what they are attached to; OpenID Connect needs it.
pub fn split_policies(pol: FilterOrPolicy, attached: Option<AttachedPolicyContext>) -> (r: Result<
    ResolvedPolicies,
    ConfigError,
>)
    ensures
        match r {
            Ok(p) => {
                &&& pol.refusal(opt_view(attached)) is None
                &&& views(p.route_policies@) == pol.route_rules(opt_view(attached))
                &&& p.backend_policies@ == pol.backend_rules()
                &&& p.route_policies@.len() <= 22
            },
            Err(e) => pol.refusal(opt_view(attached)) == Some(e@),
        },
{
    let filters = Filters {
        request_header_modifier: pol.request_header_modifier,
        response_header_modifier: pol.response_header_modifier,
        request_redirect: pol.request_redirect,
        url_rewrite: pol.url_rewrite,
        request_mirror: pol.request_mirror,
        direct_response: pol.direct_response,
        cors: pol.cors,
    };
    let mut route_policies = split_filters(filters)?;
    let mut authn: Vec<TrafficPolicy> = Vec::new();
    assert(views(authn@) =~= Seq::<TrafficPolicyView>::empty());
    add_opt(
        &mut authn,
        match load(pol.mcp_authentication)? {
            Some(p) => Some(
                TrafficPolicy::JwtAuth(
                    unconditional(
                        JwtAuthentication { jwt: p.jwt_validator.clone(), mcp: Some(p) },
                    ),
                ),
            ),
            None => None,
        },
    );
    let backend = BackendPart {
        mcp_authorization: pol.mcp_authorization,
        a2a: pol.a2a,
        backend_tls: pol.backend_tls,
        backend_tunnel: pol.backend_tunnel,
        backend_auth: pol.backend_auth,
        ext_mcp: pol.ext_mcp,
    };
    let backend_policies = split_backend(backend)?;
    add_opt(
        &mut authn,
        match pol.ai {
            Some(p) => Some(TrafficPolicy::AI(p)),
            None => None,
        },
    );
    add_opt(
        &mut authn,
        match load(pol.jwt_auth)? {
            Some(p) => Some(TrafficPolicy::JwtAuth(unconditional(JwtAuthentication { jwt: p, mcp: None }))),
            None => None,
        },
    );
    let compiled_oidc = match pol.oidc {
        Some(provider) => Some(compile_oidc(provider, attached)?),
        None => None,
    };
    add_opt(
        &mut authn,
        match load(pol.basic_auth)? {
            Some(p) => Some(TrafficPolicy::BasicAuth(shared(p))),
            None => None,
        },
    );
    add_opt(
        &mut authn,
        match pol.api_key {
            Some(p) => Some(TrafficPolicy::APIKey(unconditional(p))),
            None => None,
        },
    );
    let late = LatePart {
        transformations: pol.transformations,
        csrf: pol.csrf,
        authorization: pol.authorization,
        ext_authz: pol.ext_authz,
        ext_proc: pol.ext_proc,
        local_rate_limit: pol.local_rate_limit,
        remote_rate_limit: pol.remote_rate_limit,
        timeout: pol.timeout,
        retry: pol.retry,
    };
    let late_policies = split_late(late)?;
    proof {
        lemma_views(route_policies@, authn@);
        lemma_views(route_policies@ + authn@, late_policies@);
    }
    extend(&mut route_policies, authn);
    extend(&mut route_policies, late_policies);
    add_opt(&mut route_policies, compiled_oidc);
    Ok(ResolvedPolicies { backend_policies, route_policies })
}

/// No policies.
pub fn no_policies() -> (r: ResolvedPolicies)
    ensures
        r.route_policies@.len() == 0,
        r.backend_policies@.len() == 0,
{
    ResolvedPolicies { backend_policies: Vec::new(), route_policies: Vec::new() }
}

} // verus!
