//! Policies of accepted connections, as a configuration writes them.

use std::sync::Arc;

use vstd::prelude::*;
use vstd::string::*;

use crate::local::config::{DeprecatedLogging, DeprecatedTracing, GatewayConfig};
use crate::local::error::{add_opt, one, ConfigError};
use crate::local::llm::{set_headers, sets_headers, LocalTransformationConfig};
use crate::text::{join2, opt_view, same_text, views, Text};
use crate::types::agent::{
    ListenerTarget, ListenerTargetView, PolicyTarget, PolicyTargetView, SimpleBackendReference,
    TargetedPolicy, TargetedPolicyView,
};
use crate::types::frontend::{
    FrontendPolicy, LoggingFields, LoggingPolicy, TracingConfig, TracingPolicy,
};
use crate::types::policy::{first_of, pair_texts, share, PolicyBody, RuleSet};
use crate::types::traffic::{BackendTrafficPolicy, PolicyType, PolicyTypeView};

verus! {

/// Policies of accepted connections.
#[derive(Debug)]
pub struct LocalFrontendPolicies {
    /// Settings for handling incoming HTTP requests.
    pub http: Option<Arc<PolicyBody>>,
    /// Settings for handling incoming TLS connections.
    pub tls: Option<Arc<PolicyBody>>,
    /// Settings for handling incoming TCP connections.
    pub tcp: Option<Arc<PolicyBody>>,
    /// Authorization of connections.
    pub network_authorization: Option<Arc<RuleSet>>,
    /// Handling of the PROXY protocol.
    pub proxy_protocol: Option<Arc<PolicyBody>>,
    /// Settings for request access logs.
    pub access_log: Option<Arc<LoggingPolicy>>,
    pub tracing: Option<Arc<TracingConfig>>,
}

/// A policy under a name, attached to a gateway.
pub open spec fn frontend_policy(
    name: Text,
    gateway: ListenerTargetView,
    policy: FrontendPolicy,
) -> TargetedPolicyView {
    TargetedPolicyView {
        key: "frontend/"@ + name,
        name: None,
        target: PolicyTargetView::Gateway(gateway),
        policy: PolicyTypeView::Frontend(policy),
    }
}

/// The tracing policy of a configuration: its spans gain and lose the fields that it names.
pub open spec fn tracing_policy(config: Arc<TracingConfig>) -> TracingPolicy {
    TracingPolicy {
        config,
        fields: Arc::new(LoggingFields { add: config.attributes, remove: config.remove }),
    }
}

impl LocalFrontendPolicies {
    /// The policies, each attached to the gateway under a key of its own. That of the access log
    /// has the place set up where the log is sent.
    pub open spec fn attached(self, gateway: ListenerTargetView) -> Seq<TargetedPolicyView> {
        Seq::<TargetedPolicyView>::empty() + one(
            match self.http {
                Some(p) => Some(frontend_policy("http"@, gateway, FrontendPolicy::HTTP(p))),
                None => None,
            },
        ) + one(
            match self.tls {
                Some(p) => Some(frontend_policy("tls"@, gateway, FrontendPolicy::TLS(p))),
                None => None,
            },
        ) + one(
            match self.tcp {
                Some(p) => Some(frontend_policy("tcp"@, gateway, FrontendPolicy::TCP(p))),
                None => None,
            },
        ) + one(
            match self.network_authorization {
                Some(p) => Some(
                    frontend_policy(
                        "networkAuthorization"@,
                        gateway,
                        FrontendPolicy::NetworkAuthorization(p),
                    ),
                ),
                None => None,
            },
        ) + one(
            match self.proxy_protocol {
                Some(p) => Some(frontend_policy("proxy"@, gateway, FrontendPolicy::Proxy(p))),
                None => None,
            },
        ) + one(
            match self.access_log {
                Some(p) => Some(
                    frontend_policy(
                        "accessLog"@,
                        gateway,
                        FrontendPolicy::AccessLog(Arc::new(p.initialized())),
                    ),
                ),
                None => None,
            },
        ) + one(
            match self.tracing {
                Some(p) => Some(
                    frontend_policy(
                        "tracing"@,
                        gateway,
                        FrontendPolicy::Tracing(Arc::new(tracing_policy(p))),
                    ),
                ),
                None => None,
            },
        )
    }
}

fn attach(name: &str, gateway: &ListenerTarget, policy: Option<FrontendPolicy>) -> (r: Option<
    TargetedPolicy,
>)
    ensures
        opt_view(r) == (match policy {
            Some(p) => Some(frontend_policy(name@, gateway@, p)),
            None => None,
        }),
{
    match policy {
        Some(p) => Some(
            TargetedPolicy {
                key: join2("frontend/", name),
                name: None,
                target: PolicyTarget::gateway(gateway),
                policy: PolicyType::Frontend(p),
            },
        ),
        None => None,
    }
}

/// The policies, each attached to the gateway under a key of its own.
pub fn split_frontend_policies(gateway: &ListenerTarget, pol: LocalFrontendPolicies) -> (r: Vec<
    TargetedPolicy,
>)
    ensures
        views(r@) == pol.attached(gateway@),
{
    let mut pols: Vec<TargetedPolicy> = Vec::new();
    assert(views(pols@) =~= Seq::<TargetedPolicyView>::empty());
    let http = match pol.http {
        Some(p) => Some(FrontendPolicy::HTTP(p)),
        None => None,
    };
    add_opt(&mut pols, attach("http", gateway, http));
    let tls = match pol.tls {
        Some(p) => Some(FrontendPolicy::TLS(p)),
        None => None,
    };
    add_opt(&mut pols, attach("tls", gateway, tls));
    let tcp = match pol.tcp {
        Some(p) => Some(FrontendPolicy::TCP(p)),
        None => None,
    };
    add_opt(&mut pols, attach("tcp", gateway, tcp));
    let network = match pol.network_authorization {
        Some(p) => Some(FrontendPolicy::NetworkAuthorization(p)),
        None => None,
    };
    add_opt(&mut pols, attach("networkAuthorization", gateway, network));
    let proxy = match pol.proxy_protocol {
        Some(p) => Some(FrontendPolicy::Proxy(p)),
        None => None,
    };
    add_opt(&mut pols, attach("proxy", gateway, proxy));
    let access_log = match pol.access_log {
        Some(p) => Some(FrontendPolicy::AccessLog(LoggingPolicy::init_access_log_policy(p))),
        None => None,
    };
    add_opt(&mut pols, attach("accessLog", gateway, access_log));
    let tracing = match pol.tracing {
        Some(config) => {
            let fields = LoggingFields {
                add: config.attributes.clone(),
                remove: config.remove.clone(),
            };
            Some(
                FrontendPolicy::Tracing(
                    Arc::new(TracingPolicy { config, fields: Arc::new(fields) }),
                ),
            )
        },
        None => None,
    };
    add_opt(&mut pols, attach("tracing", gateway, tracing));
    pols
}

// ---------------------------------------------------------------------------------------------
// Deprecated settings
// ---------------------------------------------------------------------------------------------

impl DeprecatedLogging {
    /// Whether something is set that is now a policy.
    pub open spec fn is_set(self) -> bool {
        self.fields.add@.len() != 0 || self.fields.remove@.len() != 0 || self.filter is Some
    }

    /// The policy that says the same.
    pub open spec fn policy(self) -> LoggingPolicy {
        LoggingPolicy {
            filter: self.filter,
            add: self.fields.add,
            remove: self.fields.remove,
            otlp: None,
            access_log_policy: None,
        }
    }
}

/// Whether something is set that is now a policy.
pub fn has_deprecated_frontend_log_fields(log: &DeprecatedLogging) -> (r: bool)
    ensures
        r == log.is_set(),
{
    log.fields.add.len() != 0 || log.fields.remove.len() != 0 || log.filter.is_some()
}

/// Whether a text begins with another.
pub open spec fn begins_with(text: Text, prefix: Text) -> bool {
    prefix.len() <= text.len() && text.subrange(0, prefix.len() as int) == prefix
}

/// A text without the beginning, if it begins with it.
pub open spec fn after(text: Text, prefix: Text) -> Text {
    text.subrange(prefix.len() as int, text.len() as int)
}

/// The host and port of the endpoint of traces: what follows its scheme, if it has one that is
/// known.
pub open spec fn endpoint_host(text: Text) -> Text {
    if begins_with(text, "http://"@) {
        after(text, "http://"@)
    } else if begins_with(text, "https://"@) {
        after(text, "https://"@)
    } else if begins_with(text, "grpc://"@) {
        after(text, "grpc://"@)
    } else {
        text
    }
}

fn strip<'a>(text: &'a str, prefix: &str) -> (r: Option<&'a str>)
    ensures
        match r {
            Some(t) => begins_with(text@, prefix@) && t@ == after(text@, prefix@),
            None => !begins_with(text@, prefix@),
        },
{
    let n: usize = text.unicode_len();
    let k: usize = prefix.unicode_len();
    if k <= n && same_text(text.substring_char(0, k), prefix) {
        Some(text.substring_char(k, n))
    } else {
        None
    }
}

/// The host and port of the endpoint of traces.
pub fn strip_scheme(text: &str) -> (r: String)
    ensures
        r@ == endpoint_host(text@),
{
    match strip(text, "http://") {
        Some(t) => t.to_owned(),
        None => match strip(text, "https://") {
            Some(t) => t.to_owned(),
            None => match strip(text, "grpc://") {
                Some(t) => t.to_owned(),
                None => text.to_owned(),
            },
        },
    }
}

/// The transformation that sets the headers that are sent with traces.
pub fn tracing_headers_transformation(headers: Vec<(String, String)>) -> (r:
    LocalTransformationConfig)
    ensures
        sets_headers(r, pair_texts(headers@)),
{
    set_headers(headers)
}

impl DeprecatedTracing {
    /// Why the settings are refused, if they are.
    pub open spec fn refusal(self) -> Option<Text> {
        first_of(
            match self.headers_transformation.compiled {
                Err(e) => if self.headers@.len() != 0 {
                    Some(e@)
                } else {
                    None
                },
                Ok(_) => None,
            },
            match self.endpoint {
                Some(ep) => match ep.host_port.target {
                    Err(_) => Some("failed parsing tracing endpoint: "@ + ep.text@),
                    Ok(_) => None,
                },
                None => None,
            },
        )
    }

    /// Whether a configuration says the same as the settings, which name an endpoint.
    pub open spec fn says(self, config: TracingConfig) -> bool {
        &&& config.provider_backend == SimpleBackendReference::InlineBackend(
            self.endpoint->0.host_port.target->Ok_0,
        )
        &&& config.policies@ == one(
            if self.headers@.len() != 0 {
                Some(
                    BackendTrafficPolicy::Transformation(
                        self.headers_transformation.compiled->Ok_0,
                    ),
                )
            } else {
                None
            },
        )
        &&& config.attributes == self.fields.add
        &&& config.resources@.len() == 0
        &&& config.remove == self.fields.remove
        &&& config.random_sampling == self.random_sampling
        &&& config.client_sampling == self.client_sampling
        &&& config.path == self.path
        &&& config.protocol == self.protocol
    }
}

/// Why deprecated settings are refused, if they are: the same is also set by a policy, or they
/// cannot be read.
pub open spec fn merge_refusal(
    deprecated: GatewayConfig,
    frontend_policies: LocalFrontendPolicies,
) -> Option<Text> {
    first_of(
        if deprecated.logging.is_set() && frontend_policies.access_log is Some {
            Some("cannot use deprecated config.logging together with frontendPolicies.accessLog"@)
        } else {
            None
        },
        match deprecated.tracing {
            Some(t) => if frontend_policies.tracing is Some {
                Some("cannot use deprecated config.tracing together with frontendPolicies.tracing"@)
            } else {
                t.refusal()
            },
            None => None,
        },
    )
}

/// Whether the policies are the given ones and those that the deprecated settings stand for.
pub open spec fn merged_frontend(
    deprecated: GatewayConfig,
    given: LocalFrontendPolicies,
    r: LocalFrontendPolicies,
) -> bool {
    &&& r == (LocalFrontendPolicies { access_log: r.access_log, tracing: r.tracing, ..given })
    &&& r.access_log == (if deprecated.logging.is_set() {
        Some(Arc::new(deprecated.logging.policy()))
    } else {
        given.access_log
    })
    &&& match deprecated.tracing {
        Some(t) => if t.endpoint is Some {
            r.tracing is Some && t.says(*r.tracing->0)
        } else {
            r.tracing == given.tracing
        },
        None => r.tracing == given.tracing,
    }
}

/// The policies with those that deprecated settings stand for. Refuses settings where there is a
/// policy for the same.
pub fn merge_deprecated_frontend_policies(
    deprecated: &GatewayConfig,
    frontend_policies: LocalFrontendPolicies,
) -> (r: Result<LocalFrontendPolicies, ConfigError>)
    requires
        deprecated.tracing matches Some(t) ==> t.wf(),
    ensures
        match r {
            Ok(p) => merge_refusal(*deprecated, frontend_policies) is None && merged_frontend(
                *deprecated,
                frontend_policies,
                p,
            ),
            Err(e) => merge_refusal(*deprecated, frontend_policies) == Some(e@),
        },
{
    let ghost given = frontend_policies;
    let mut frontend_policies = frontend_policies;
    if has_deprecated_frontend_log_fields(&deprecated.logging) {
        if frontend_policies.access_log.is_some() {
            return Err(
                ConfigError::new(
                    "cannot use deprecated config.logging together with frontendPolicies.accessLog",
                ),
            );
        }
        frontend_policies.access_log = Some(
            Arc::new(
                LoggingPolicy {
                    filter: share(&deprecated.logging.filter),
                    add: deprecated.logging.fields.add.clone(),
                    remove: deprecated.logging.fields.remove.clone(),
                    otlp: None,
                    access_log_policy: None,
                },
            ),
        );
    }
    match &deprecated.tracing {
        Some(tracing) => {
            if frontend_policies.tracing.is_some() {
                return Err(
                    ConfigError::new(
                        "cannot use deprecated config.tracing together with frontendPolicies.tracing",
                    ),
                );
            }
            let mut policies: Vec<BackendTrafficPolicy> = Vec::new();
            if tracing.headers.len() != 0 {
                match &tracing.headers_transformation.compiled {
                    Ok(t) => {
                        policies.push(BackendTrafficPolicy::Transformation(t.clone()));
                    },
                    Err(e) => {
                        return Err(ConfigError::of(e.clone()));
                    },
                }
            }
            assert(policies@ =~= one(
                if tracing.headers@.len() != 0 {
                    Some(
                        BackendTrafficPolicy::Transformation(
                            tracing.headers_transformation.compiled->Ok_0,
                        ),
                    )
                } else {
                    None
                },
            ));
            match &tracing.endpoint {
                Some(ep) => {
                    let target = match &ep.host_port.target {
                        Ok(t) => t.copy(),
                        Err(_) => {
                            return Err(
                                ConfigError::of(
                                    join2("failed parsing tracing endpoint: ", ep.text.as_str()),
                                ),
                            );
                        },
                    };
                    frontend_policies.tracing = Some(
                        Arc::new(
                            TracingConfig {
                                provider_backend: SimpleBackendReference::InlineBackend(target),
                                policies,
                                attributes: tracing.fields.add.clone(),
                                resources: Vec::new(),
                                remove: tracing.fields.remove.clone(),
                                random_sampling: share(&tracing.random_sampling),
                                client_sampling: share(&tracing.client_sampling),
                                path: tracing.path.clone(),
                                protocol: tracing.protocol,
                            },
                        ),
                    );
                },
                None => {},
            }
        },
        None => {},
    }
    Ok(frontend_policies)
}

} // verus!
