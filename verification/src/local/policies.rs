//! Policies of backends, as a configuration writes them.

use std::sync::Arc;

use vstd::prelude::*;

use crate::ext_proc::InferenceRouting;
use crate::local::error::{load, load_refusal, loaded, one, push_opt, ConfigError, Loaded};
use crate::mcp::ext_mcp::ExtMcp;
use crate::text::{join2, Text};
use crate::types::llm;
use crate::types::policy::{first_of, BackendAuth, HeaderModifier, PolicyBody, RuleSet};
use crate::types::traffic::BackendTrafficPolicy;

verus! {

/// The authentication to a backend, as a configuration writes it.
#[derive(Debug)]
pub enum BackendAuthCompat {
    /// No more than a key.
    PlainKey { key: String },
    Full(Arc<BackendAuth>),
}

/// The authentication to a backend. One that is no more than a key is sent where it usually is.
pub fn de_backend_auth(auth: Option<BackendAuthCompat>) -> (r: Option<Arc<BackendAuth>>)
    ensures
        r == (match auth {
            Some(BackendAuthCompat::Full(a)) => Some(a),
            Some(BackendAuthCompat::PlainKey { key }) => Some(
                Arc::new(BackendAuth::Key { value: key, location: None }),
            ),
            None => None,
        }),
{
    match auth {
        Some(BackendAuthCompat::Full(a)) => Some(a),
        Some(BackendAuthCompat::PlainKey { key }) => Some(
            Arc::new(BackendAuth::Key { value: key, location: None }),
        ),
        None => None,
    }
}

/// The transformation of a backend, from what compiling it came to.
pub fn de_transform(config: Option<Loaded<PolicyBody>>) -> (r: Result<
    Option<Arc<PolicyBody>>,
    ConfigError,
>)
    ensures
        match r {
            Ok(v) => load_refusal(config) is None && v == loaded(config),
            Err(e) => load_refusal(config) == Some(e@),
        },
{
    load(config)
}

/// Policies that every backend can have.
#[derive(Debug)]
pub struct SimpleLocalBackendPolicies {
    /// Headers to be modified in the request.
    pub request_header_modifier: Option<Arc<HeaderModifier>>,
    /// Modify requests and responses sent to and from the backend.
    pub transformations: Option<Arc<PolicyBody>>,
    /// Send TLS to the backend.
    pub backend_tls: Option<Loaded<PolicyBody>>,
    /// Authenticate to the backend.
    pub backend_auth: Option<Arc<BackendAuth>>,
    /// HTTP settings for the backend.
    pub http: Option<Arc<PolicyBody>>,
    /// TCP settings for the backend.
    pub tcp: Option<Arc<PolicyBody>>,
    /// A tunnel to use when connecting to the backend.
    pub backend_tunnel: Option<Arc<PolicyBody>>,
}

/// Policies of the target of an MCP backend.
#[derive(Debug)]
pub struct MCPLocalBackendPolicies {
    pub simple: SimpleLocalBackendPolicies,
    /// Authorization policies for MCP access.
    pub mcp_authorization: Option<Arc<RuleSet>>,
    /// An external processor of MCP requests.
    pub ext_mcp: Option<Arc<ExtMcp>>,
}

/// Policies of a backend.
#[derive(Debug)]
pub struct LocalBackendPolicies {
    pub simple: SimpleLocalBackendPolicies,
    /// Headers to be modified in the response.
    pub response_header_modifier: Option<Arc<HeaderModifier>>,
    /// Directly respond to the request with a redirect.
    pub request_redirect: Option<Arc<PolicyBody>>,
    /// Evicts the backend on unhealthy responses.
    pub health: Option<Loaded<PolicyBody>>,
    /// Authenticate requests by calling an external server after this backend is selected.
    pub ext_authz: Option<Arc<PolicyBody>>,
    /// Authorization policies for MCP access.
    pub mcp_authorization: Option<Arc<RuleSet>>,
    /// An external processor of MCP requests.
    pub ext_mcp: Option<Arc<ExtMcp>>,
    /// Mark this traffic as A2A.
    pub a2a: Option<Arc<PolicyBody>>,
    /// Route requests through an endpoint picker.
    pub inference_routing: Option<Arc<InferenceRouting>>,
    /// Mark this as LLM traffic. The patterns of its aliases are compiled.
    pub ai: Option<Arc<llm::Policy>>,
}

/// Why the health policy is refused, if it is.
pub open spec fn health_refusal(health: Option<Loaded<PolicyBody>>) -> Option<Text> {
    match health {
        Some(Err(e)) => Some("health.unhealthyExpression: "@ + e@),
        _ => None,
    }
}

/// The health policy, if there is one. Refuses one whose expression could not be compiled.
pub fn load_health(health: Option<Loaded<PolicyBody>>) -> (r: Result<
    Option<Arc<PolicyBody>>,
    ConfigError,
>)
    ensures
        match r {
            Ok(v) => health_refusal(health) is None && v == loaded(health),
            Err(e) => health_refusal(health) == Some(e@),
        },
{
    match health {
        Some(Ok(v)) => Ok(Some(v)),
        Some(Err(e)) => Err(
            ConfigError::of(join2("health.unhealthyExpression: ", e.as_str())),
        ),
        None => Ok(None),
    }
}

impl LocalBackendPolicies {
    /// The policies with nothing set but those that every backend can have.
    pub open spec fn of_simple(simple: SimpleLocalBackendPolicies) -> Self {
        LocalBackendPolicies {
            simple,
            response_header_modifier: None,
            request_redirect: None,
            health: None,
            ext_authz: None,
            mcp_authorization: None,
            ext_mcp: None,
            a2a: None,
            inference_routing: None,
            ai: None,
        }
    }

    /// The policies with nothing set but those that every backend can have.
    pub fn simple(simple: SimpleLocalBackendPolicies) -> (r: Self)
        ensures
            r == LocalBackendPolicies::of_simple(simple),
    {
        LocalBackendPolicies {
            simple,
            response_header_modifier: None,
            request_redirect: None,
            health: None,
            ext_authz: None,
            mcp_authorization: None,
            ext_mcp: None,
            a2a: None,
            inference_routing: None,
            ai: None,
        }
    }

    /// Why the policies are refused, if they are.
    pub open spec fn refusal(self) -> Option<Text> {
        first_of(load_refusal(self.simple.backend_tls), health_refusal(self.health))
    }

    /// The policies in the order in which they are attached.
    pub open spec fn policies(self) -> Seq<BackendTrafficPolicy> {
        Seq::<BackendTrafficPolicy>::empty() + one(
            match self.simple.tcp {
                Some(p) => Some(BackendTrafficPolicy::TCP(p)),
                None => None,
            },
        ) + one(
            match self.simple.backend_tunnel {
                Some(p) => Some(BackendTrafficPolicy::Tunnel(p)),
                None => None,
            },
        ) + one(
            match self.simple.http {
                Some(p) => Some(BackendTrafficPolicy::HTTP(p)),
                None => None,
            },
        ) + one(
            match self.simple.request_header_modifier {
                Some(p) => Some(BackendTrafficPolicy::RequestHeaderModifier(p)),
                None => None,
            },
        ) + one(
            match self.response_header_modifier {
                Some(p) => Some(BackendTrafficPolicy::ResponseHeaderModifier(p)),
                None => None,
            },
        ) + one(
            match self.request_redirect {
                Some(p) => Some(BackendTrafficPolicy::RequestRedirect(p)),
                None => None,
            },
        ) + one(
            match self.simple.transformations {
                Some(p) => Some(BackendTrafficPolicy::Transformation(p)),
                None => None,
            },
        ) + one(
            match self.mcp_authorization {
                Some(p) => Some(BackendTrafficPolicy::McpAuthorization(p)),
                None => None,
            },
        ) + one(
            match self.ext_mcp {
                Some(p) => Some(BackendTrafficPolicy::ExtMcp(p)),
                None => None,
            },
        ) + one(
            match self.a2a {
                Some(p) => Some(BackendTrafficPolicy::A2a(p)),
                None => None,
            },
        ) + one(
            match self.inference_routing {
                Some(p) => Some(BackendTrafficPolicy::InferenceRouting(p)),
                None => None,
            },
        ) + one(
            match loaded(self.simple.backend_tls) {
                Some(p) => Some(BackendTrafficPolicy::BackendTLS(p)),
                None => None,
            },
        ) + one(
            match self.simple.backend_auth {
                Some(p) => Some(BackendTrafficPolicy::BackendAuth(p)),
                None => None,
            },
        ) + one(
            match self.ext_authz {
                Some(p) => Some(BackendTrafficPolicy::ExtAuthz(p)),
                None => None,
            },
        ) + one(
            match self.ai {
                Some(p) => Some(BackendTrafficPolicy::AI(p)),
                None => None,
            },
        ) + one(
            match loaded(self.health) {
                Some(p) => Some(BackendTrafficPolicy::Health(p)),
                None => None,
            },
        )
    }

    /// The policies in the order in which they are attached. Refuses settings of TLS that could
    /// not be loaded, and a health policy whose expression could not be compiled.
    pub fn translate(self) -> (r: Result<Vec<BackendTrafficPolicy>, ConfigError>)
        ensures
            match r {
                Ok(list) => self.refusal() is None && list@ == self.policies(),
                Err(e) => self.refusal() == Some(e@),
            },
    {
        let mut pols: Vec<BackendTrafficPolicy> = Vec::new();
        push_opt(
            &mut pols,
            match self.simple.tcp {
                Some(p) => Some(BackendTrafficPolicy::TCP(p)),
                None => None,
            },
        );
        push_opt(
            &mut pols,
            match self.simple.backend_tunnel {
                Some(p) => Some(BackendTrafficPolicy::Tunnel(p)),
                None => None,
            },
        );
        push_opt(
            &mut pols,
            match self.simple.http {
                Some(p) => Some(BackendTrafficPolicy::HTTP(p)),
                None => None,
            },
        );
        push_opt(
            &mut pols,
            match self.simple.request_header_modifier {
                Some(p) => Some(BackendTrafficPolicy::RequestHeaderModifier(p)),
                None => None,
            },
        );
        push_opt(
            &mut pols,
            match self.response_header_modifier {
                Some(p) => Some(BackendTrafficPolicy::ResponseHeaderModifier(p)),
                None => None,
            },
        );
        push_opt(
            &mut pols,
            match self.request_redirect {
                Some(p) => Some(BackendTrafficPolicy::RequestRedirect(p)),
                None => None,
            },
        );
        push_opt(
            &mut pols,
            match self.simple.transformations {
                Some(p) => Some(BackendTrafficPolicy::Transformation(p)),
                None => None,
            },
        );
        push_opt(
            &mut pols,
            match self.mcp_authorization {
                Some(p) => Some(BackendTrafficPolicy::McpAuthorization(p)),
                None => None,
            },
        );
        push_opt(
            &mut pols,
            match self.ext_mcp {
                Some(p) => Some(BackendTrafficPolicy::ExtMcp(p)),
                None => None,
            },
        );
        push_opt(
            &mut pols,
            match self.a2a {
                Some(p) => Some(BackendTrafficPolicy::A2a(p)),
                None => None,
            },
        );
        push_opt(
            &mut pols,
            match self.inference_routing {
                Some(p) => Some(BackendTrafficPolicy::InferenceRouting(p)),
                None => None,
            },
        );
        push_opt(
            &mut pols,
            match load(self.simple.backend_tls)? {
                Some(p) => Some(BackendTrafficPolicy::BackendTLS(p)),
                None => None,
            },
        );
        push_opt(
            &mut pols,
            match self.simple.backend_auth {
                Some(p) => Some(BackendTrafficPolicy::BackendAuth(p)),
                None => None,
            },
        );
        push_opt(
            &mut pols,
            match self.ext_authz {
                Some(p) => Some(BackendTrafficPolicy::ExtAuthz(p)),
                None => None,
            },
        );
        push_opt(
            &mut pols,
            match self.ai {
                Some(p) => Some(BackendTrafficPolicy::AI(p)),
                None => None,
            },
        );
        push_opt(
            &mut pols,
            match load_health(self.health)? {
                Some(p) => Some(BackendTrafficPolicy::Health(p)),
                None => None,
            },
        );
        Ok(pols)
    }
}

/// Why the policies of a backend are refused, if it has any.
pub open spec fn backend_refusal(policies: Option<LocalBackendPolicies>) -> Option<Text> {
    match policies {
        Some(p) => p.refusal(),
        None => None,
    }
}

/// The policies of a backend; none if it has none.
pub open spec fn backend_policies(policies: Option<LocalBackendPolicies>) -> Seq<
    BackendTrafficPolicy,
> {
    match policies {
        Some(p) => p.policies(),
        None => Seq::empty(),
    }
}

/// The policies of a backend; none if it has none.
pub fn translate_backend_policies(policies: Option<LocalBackendPolicies>) -> (r: Result<
    Vec<BackendTrafficPolicy>,
    ConfigError,
>)
    ensures
        match r {
            Ok(list) => backend_refusal(policies) is None && list@ == backend_policies(policies),
            Err(e) => backend_refusal(policies) == Some(e@),
        },
{
    match policies {
        Some(p) => p.translate(),
        None => {
            let none: Vec<BackendTrafficPolicy> = Vec::new();
            assert(none@ =~= Seq::<BackendTrafficPolicy>::empty());
            Ok(none)
        },
    }
}

/// The policies of a connection to a service that a policy calls.
pub fn de_from_local_backend_policy(s: SimpleLocalBackendPolicies) -> (r: Result<
    Vec<BackendTrafficPolicy>,
    ConfigError,
>)
    ensures
        match r {
            Ok(list) => load_refusal(s.backend_tls) is None && list@
                == LocalBackendPolicies::of_simple(s).policies(),
            Err(e) => load_refusal(s.backend_tls) == Some(e@),
        },
{
    LocalBackendPolicies::simple(s).translate()
}

/// Policies of a backend of TCP routes.
#[derive(Debug)]
pub struct LocalTCPBackendPolicies {
    /// Send TLS to the backend.
    pub backend_tls: Option<Loaded<PolicyBody>>,
    /// Tunnel to the backend.
    pub backend_tunnel: Option<Arc<PolicyBody>>,
}

impl LocalTCPBackendPolicies {
    /// The policies in the order in which they are attached.
    pub open spec fn policies(self) -> Seq<BackendTrafficPolicy> {
        Seq::<BackendTrafficPolicy>::empty() + one(
            match loaded(self.backend_tls) {
                Some(p) => Some(BackendTrafficPolicy::BackendTLS(p)),
                None => None,
            },
        ) + one(
            match self.backend_tunnel {
                Some(p) => Some(BackendTrafficPolicy::Tunnel(p)),
                None => None,
            },
        )
    }

    /// The policies in the order in which they are attached. Refuses settings of TLS that could
    /// not be loaded.
    pub fn translate(self) -> (r: Result<Vec<BackendTrafficPolicy>, ConfigError>)
        ensures
            match r {
                Ok(list) => load_refusal(self.backend_tls) is None && list@ == self.policies(),
                Err(e) => load_refusal(self.backend_tls) == Some(e@),
            },
    {
        let mut pols: Vec<BackendTrafficPolicy> = Vec::new();
        push_opt(
            &mut pols,
            match load(self.backend_tls)? {
                Some(p) => Some(BackendTrafficPolicy::BackendTLS(p)),
                None => None,
            },
        );
        push_opt(
            &mut pols,
            match self.backend_tunnel {
                Some(p) => Some(BackendTrafficPolicy::Tunnel(p)),
                None => None,
            },
        );
        Ok(pols)
    }
}

/// Where policies of a backend stand.
#[derive(Debug, Clone, Copy, PartialEq, Eq, Structural)]
pub enum InferenceRoutingScope {
    ServiceRouteBackend,
    NonServiceRouteBackend,
    NamedBackend,
    AIProviderPolicies,
}

/// Why routing by an endpoint picker is refused, if it is asked for: only a service that stands in
/// a route can be picked an endpoint of.
pub open spec fn inference_refusal(
    policies: Option<LocalBackendPolicies>,
    scope: InferenceRoutingScope,
) -> Option<Text> {
    match policies {
        Some(p) => if p.inference_routing is Some {
            match scope {
                InferenceRoutingScope::ServiceRouteBackend => None,
                InferenceRoutingScope::NonServiceRouteBackend => Some(
                    "inferenceRouting is only supported on service route backends"@,
                ),
                InferenceRoutingScope::NamedBackend => Some(
                    "inferenceRouting is only supported on service route backends, not named backends"@,
                ),
                InferenceRoutingScope::AIProviderPolicies => Some(
                    "inferenceRouting is only supported on service route backends, not AI provider policies"@,
                ),
            }
        } else {
            None
        },
        None => None,
    }
}

/// Refuses routing by an endpoint picker where it is not supported.
pub fn validate_inference_routing_scope(
    policies: &Option<LocalBackendPolicies>,
    scope: InferenceRoutingScope,
) -> (r: Result<(), ConfigError>)
    ensures
        match r {
            Ok(_) => inference_refusal(*policies, scope) is None,
            Err(e) => inference_refusal(*policies, scope) == Some(e@),
        },
{
    match policies {
        Some(p) => {
            if p.inference_routing.is_none() {
                return Ok(());
            }
        },
        None => {
            return Ok(());
        },
    }
    match scope {
        InferenceRoutingScope::ServiceRouteBackend => Ok(()),
        InferenceRoutingScope::NonServiceRouteBackend => Err(
            ConfigError::new("inferenceRouting is only supported on service route backends"),
        ),
        InferenceRoutingScope::NamedBackend => Err(
            ConfigError::new(
                "inferenceRouting is only supported on service route backends, not named backends",
            ),
        ),
        InferenceRoutingScope::AIProviderPolicies => Err(
            ConfigError::new(
                "inferenceRouting is only supported on service route backends, not AI provider policies",
            ),
        ),
    }
}

} // verus!
