//! Policies of the connections that the gateway accepts.

use std::sync::Arc;

use vstd::prelude::*;

use crate::types::agent::SimpleBackendReference;
use crate::types::policy::{share, Expression, PolicyBody, RuleSet};
use crate::types::traffic::BackendTrafficPolicy;

verus! {

/// Where access logs are sent.
#[derive(Debug)]
pub struct AccessLogPolicy {
    pub config: Arc<PolicyBody>,
}

/// What is written to the access log.
#[derive(Debug)]
pub struct LoggingPolicy {
    pub filter: Option<Arc<Expression>>,
    pub add: Arc<Vec<(String, Arc<Expression>)>>,
    pub remove: Arc<Vec<String>>,
    /// The settings of sending the log away, if it is sent anywhere.
    pub otlp: Option<Arc<PolicyBody>>,
    /// Where the log is sent.
    pub access_log_policy: Option<Arc<AccessLogPolicy>>,
}

impl LoggingPolicy {
    /// The policy with the place set up where the log is sent, if its settings name one.
    pub open spec fn initialized(&self) -> LoggingPolicy {
        match self.otlp {
            Some(config) => LoggingPolicy {
                access_log_policy: Some(Arc::new(AccessLogPolicy { config })),
                ..*self
            },
            None => *self,
        }
    }

    /// The policy with the place set up where the log is sent, if its settings name one.
    pub fn init_access_log_policy(p: Arc<LoggingPolicy>) -> (r: Arc<LoggingPolicy>)
        ensures
            *r == p.initialized(),
    {
        let access_log_policy = match &p.otlp {
            Some(config) => Some(Arc::new(AccessLogPolicy { config: config.clone() })),
            None => {
                return p;
            },
        };
        Arc::new(
            LoggingPolicy {
                filter: share(&p.filter),
                add: p.add.clone(),
                remove: p.remove.clone(),
                otlp: share(&p.otlp),
                access_log_policy,
            },
        )
    }
}

/// Fields that are added to metrics.
#[derive(Debug)]
pub struct MetricsFieldsPolicy {
    pub add: Arc<Vec<(String, Arc<Expression>)>>,
}

/// The protocol in which traces are sent.
#[derive(Debug, Clone, Copy, PartialEq, Eq, Structural)]
pub enum TracingProtocol {
    Grpc,
    Http,
}

/// How traces are sampled and where they are sent.
#[derive(Debug)]
pub struct TracingConfig {
    pub provider_backend: SimpleBackendReference,
    pub policies: Vec<BackendTrafficPolicy>,
    pub attributes: Arc<Vec<(String, Arc<Expression>)>>,
    pub resources: Vec<(String, Arc<Expression>)>,
    pub remove: Arc<Vec<String>>,
    pub random_sampling: Option<Arc<Expression>>,
    pub client_sampling: Option<Arc<Expression>>,
    pub path: String,
    pub protocol: TracingProtocol,
}

/// The fields that a log or a trace gains and loses.
#[derive(Debug)]
pub struct LoggingFields {
    pub add: Arc<Vec<(String, Arc<Expression>)>>,
    pub remove: Arc<Vec<String>>,
}

/// A tracing configuration with the fields of its spans.
#[derive(Debug)]
pub struct TracingPolicy {
    pub config: Arc<TracingConfig>,
    pub fields: Arc<LoggingFields>,
}

/// A policy of accepted connections.
#[derive(Debug)]
pub enum FrontendPolicy {
    HTTP(Arc<PolicyBody>),
    TLS(Arc<PolicyBody>),
    TCP(Arc<PolicyBody>),
    NetworkAuthorization(Arc<RuleSet>),
    Proxy(Arc<PolicyBody>),
    AccessLog(Arc<LoggingPolicy>),
    Tracing(Arc<TracingPolicy>),
    Metrics(Arc<MetricsFieldsPolicy>),
}

impl View for FrontendPolicy {
    type V = FrontendPolicy;

    open spec fn view(&self) -> FrontendPolicy {
        *self
    }
}

/// The expressions of named fields.
pub open spec fn field_expressions(
    fields: Seq<(String, Arc<Expression>)>,
) -> Seq<Arc<Expression>> {
    fields.map_values(|f: (String, Arc<Expression>)| f.1)
}

} // verus!
