//! What the gateway was started with, as far as the conversion of a local configuration needs it.

use std::sync::Arc;

use vstd::prelude::*;

use crate::local::error::Loaded;
use crate::local::frontend::endpoint_host;
use crate::local::llm::{
    sets_headers, LocalTransformationConfig, MODEL_NAME_EXPRESSION, MODEL_NAME_HEADER,
};
use crate::local::split::{AttachedPolicyContext, AttachedPolicyContextView};
use crate::types::agent::Target;
use crate::types::frontend::{LoggingFields, TracingProtocol};
use crate::types::policy::{
    pair_texts, Encoder, Expression, Nanos, PolicyBody, PolicyId, PolicyIdView,
};

verus! {

/// The access log, as it was set before there were policies for it.
#[derive(Debug)]
pub struct DeprecatedLogging {
    pub filter: Option<Arc<Expression>>,
    pub fields: LoggingFields,
}

/// What reading a host and port came to, with the text that was read.
#[derive(Debug)]
pub struct ReadTarget {
    pub text: String,
    pub target: Result<Target, String>,
}

/// Where traces are sent. `host_port` is what reading the text without its scheme came to.
#[derive(Debug)]
pub struct TracingEndpoint {
    pub text: String,
    pub host_port: ReadTarget,
}

impl TracingEndpoint {
    /// What was read is the text without its scheme.
    pub open spec fn wf(self) -> bool {
        self.host_port.text@ == endpoint_host(self.text@)
    }
}

/// A transformation, with what compiling it came to.
#[derive(Debug)]
pub struct CompiledConfig {
    pub config: LocalTransformationConfig,
    pub compiled: Loaded<PolicyBody>,
}

/// Tracing, as it was set before there were policies for it.
#[derive(Debug)]
pub struct DeprecatedTracing {
    pub endpoint: Option<TracingEndpoint>,
    /// Headers that are sent with traces, with the expressions of their values.
    pub headers: Vec<(String, String)>,
    /// The transformation that sets the headers, if there are any.
    pub headers_transformation: CompiledConfig,
    pub protocol: TracingProtocol,
    pub fields: LoggingFields,
    pub random_sampling: Option<Arc<Expression>>,
    pub client_sampling: Option<Arc<Expression>>,
    pub path: String,
}

impl DeprecatedTracing {
    /// What was read is the endpoint without its scheme, and what was compiled sets the headers and
    /// does nothing else.
    pub open spec fn wf(self) -> bool {
        &&& self.endpoint matches Some(ep) ==> ep.wf()
        &&& self.headers@.len() != 0 ==> sets_headers(
            self.headers_transformation.config,
            pair_texts(self.headers@),
        )
    }
}

/// What the gateway was started with.
#[derive(Debug)]
pub struct GatewayConfig {
    /// Whether binds take IPv6 addresses: it is enabled, and the host is of the Unix family.
    pub ipv6_enabled: bool,
    /// Seals the cookies of OpenID Connect, if a secret for it was given.
    pub oidc_cookie_encoder: Option<Arc<Encoder>>,
    /// How long an MCP session may be idle.
    pub mcp_session_ttl: Nanos,
    /// The default settings of TLS to backends, or why they could not be loaded.
    pub default_backend_tls: Loaded<PolicyBody>,
    /// When the gateway was started, in seconds.
    pub startup_timestamp: u64,
    /// The transformation that keeps the model of a request in a header.
    pub model_name_transformation: CompiledConfig,
    pub logging: DeprecatedLogging,
    pub tracing: Option<DeprecatedTracing>,
}

impl GatewayConfig {
    /// What was read and compiled is what is asked for.
    pub open spec fn wf(self) -> bool {
        &&& self.tracing matches Some(t) ==> t.wf()
        &&& sets_headers(
            self.model_name_transformation.config,
            seq![(MODEL_NAME_HEADER@, MODEL_NAME_EXPRESSION@)],
        )
    }

    /// The context of policies that are attached to what the name stands for.
    pub open spec fn context_of(self, id: PolicyIdView) -> AttachedPolicyContextView {
        AttachedPolicyContextView {
            oidc_policy_id: id,
            oidc_cookie_encoder: self.oidc_cookie_encoder,
        }
    }

    /// The context of policies that are attached to what the name stands for.
    pub fn policy_context(&self, id: PolicyId) -> (r: AttachedPolicyContext)
        ensures
            r@ == self.context_of(id@),
    {
        AttachedPolicyContext {
            oidc_policy_id: id,
            oidc_cookie_encoder: crate::types::policy::share(&self.oidc_cookie_encoder),
        }
    }
}

} // verus!
