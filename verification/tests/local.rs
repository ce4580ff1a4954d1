//! Conversion of a configuration into binds, routes, policies and backends.

use std::sync::Arc;

use agentgateway::ext_proc::{InferenceRouting, InferenceRoutingDestinationMode};
use agentgateway::json::Json;
use agentgateway::keyed::StringMap;
use agentgateway::local::backends::{
    FullLocalBackend, FullLocalBackendSpec, LocalAIBackend, LocalAIProviders, LocalBackend,
    LocalMcpBackend, LocalMcpTarget, LocalMcpTargetSpec, LocalNamedAIProvider, McpPrefixMode,
    McpStatefulMode, SimpleLocalBackend,
};
use agentgateway::local::conditional::{
    validate_local_conditional_policies, LocalConditionalPolicies, LocalConditionalPolicy,
    LocalExplicitOrConditional, LocalRateLimitPolicy,
};
use agentgateway::local::config::{
    CompiledConfig, DeprecatedLogging, DeprecatedTracing, GatewayConfig, ReadTarget,
    TracingEndpoint,
};
use agentgateway::local::convert::{
    convert, LocalBind, LocalConfig, LocalPolicy, LocalRouteGroup,
};
use agentgateway::local::error::ConfigError;
use agentgateway::local::frontend::{
    has_deprecated_frontend_log_fields, merge_deprecated_frontend_policies,
    split_frontend_policies, strip_scheme, tracing_headers_transformation, LocalFrontendPolicies,
};
use agentgateway::local::hosts::{McpBackendHost, ProcessedMcpBackendHost};
use agentgateway::local::listeners::{
    convert_listener, LocalListener, LocalListenerName, LocalListenerProtocol,
    LocalTLSServerConfig,
};
use agentgateway::local::llm::{
    convert_llm_config, model_name_transformation, quoted_model_list, LocalLLMConfig,
    LocalLLMPolicy, MODEL_NAME_EXPRESSION, MODEL_NAME_HEADER,
};
use agentgateway::local::mcp::{convert_mcp_config, LocalSimpleMcpConfig};
use agentgateway::local::migrate::{
    deprecated_document, migrate_deprecated_frontend_policies, without_schema_comment,
};
use agentgateway::local::models::{
    llm_model_name_header_match, LLMRouteMatch, LocalLLMModels, LocalLLMParams,
};
use agentgateway::local::policies::{
    de_backend_auth, de_from_local_backend_policy, de_transform, translate_backend_policies,
    validate_inference_routing_scope, BackendAuthCompat, InferenceRoutingScope,
    LocalBackendPolicies, LocalTCPBackendPolicies, SimpleLocalBackendPolicies,
};
use agentgateway::local::routes::{
    convert_route, convert_tcp_route, default_matches, default_weight, LocalRoute,
    LocalRouteBackend, LocalRouteName, LocalTCPRoute, LocalTCPRouteBackend, TCPFilterOrPolicy,
};
use agentgateway::local::split::{
    split_policies, AttachedPolicyContext, FilterOrPolicy, LocalGatewayPolicy,
};
use agentgateway::types::agent::{
    Backend, BackendReference, BackendWithPolicies, BindProtocol, HeaderMatch, HeaderOrPseudo,
    HeaderValueMatch, ListenerProtocol, ListenerTarget, McpTargetSpec, NamespacedHostname,
    PathMatch, PolicyTarget, ResourceName, RouteBackendTarget, RouteName, ServerTLSConfig,
    SimpleBackendReference, SocketAddr, TLSVersion, Target, TunnelProtocol,
};
use agentgateway::types::frontend::{
    FrontendPolicy, LoggingFields, LoggingPolicy, TracingConfig, TracingProtocol,
};
use agentgateway::types::llm::{AIProvider, AzureResourceType, LocalModelAIProvider};
use agentgateway::types::policy::{
    BackendAuth, DirectResponse, Encoder, Expression, HeaderModifier, PolicyBody, PolicyId,
    RequestPolicy, RuleSet, TimeoutPolicy,
};
use agentgateway::types::traffic::{
    BackendTrafficPolicy, PolicyPhase, PolicyType, TrafficPolicy,
};

fn s(text: &str) -> String {
    text.to_string()
}

fn body(name: &str) -> Arc<PolicyBody> {
    Arc::new(plain(name))
}

fn plain(name: &str) -> PolicyBody {
    PolicyBody {
        document: Json::Text(s(name)),
        expressions: vec![],
    }
}

fn is_body(p: &PolicyBody, name: &str) -> bool {
    matches!(&p.document, Json::Text(t) if t == name)
}

fn expression(source: &str) -> Arc<Expression> {
    Arc::new(Expression { source: s(source) })
}

fn no_logging() -> DeprecatedLogging {
    DeprecatedLogging {
        filter: None,
        fields: LoggingFields {
            add: Arc::new(vec![]),
            remove: Arc::new(vec![]),
        },
    }
}

fn config() -> GatewayConfig {
    GatewayConfig {
        ipv6_enabled: false,
        oidc_cookie_encoder: None,
        mcp_session_ttl: 1_800_000_000_001,
        default_backend_tls: Ok(body("default tls")),
        startup_timestamp: 1700000000,
        model_name_transformation: CompiledConfig {
            config: model_name_transformation(),
            compiled: Ok(body("model name")),
        },
        logging: no_logging(),
        tracing: None,
    }
}

fn gateway() -> ListenerTarget {
    ListenerTarget {
        gateway_name: s("default"),
        gateway_namespace: s("default"),
        listener_name: None,
        port: None,
    }
}

fn unnamed() -> LocalRouteName {
    LocalRouteName {
        name: None,
        namespace: None,
        rule_name: None,
    }
}

fn target(host: &str, port: u16) -> Target {
    Target {
        host: s(host),
        port,
    }
}

fn route_to(backend: LocalBackend) -> LocalRoute {
    LocalRoute {
        name: unnamed(),
        hostnames: vec![],
        matches: default_matches(),
        policies: None,
        backends: vec![LocalRouteBackend {
            weight: default_weight(),
            backend,
            policies: None,
        }],
    }
}

fn http_listener(routes: Vec<LocalRoute>) -> LocalListener {
    LocalListener {
        name: LocalListenerName {
            name: None,
            namespace: None,
        },
        hostname: None,
        protocol: LocalListenerProtocol::HTTP,
        tls: None,
        routes: Some(routes),
        tcp_routes: None,
        policies: None,
    }
}

fn no_frontend_policies() -> LocalFrontendPolicies {
    LocalFrontendPolicies {
        http: None,
        tls: None,
        tcp: None,
        network_authorization: None,
        proxy_protocol: None,
        access_log: None,
        tracing: None,
    }
}

fn empty_config() -> LocalConfig {
    LocalConfig {
        config: None,
        binds: vec![],
        frontend_policies: no_frontend_policies(),
        policies: vec![],
        workloads: vec![],
        services: vec![],
        backends: vec![],
        route_groups: vec![],
        llm: None,
        mcp: None,
    }
}

fn simple_policies() -> SimpleLocalBackendPolicies {
    SimpleLocalBackendPolicies {
        request_header_modifier: None,
        transformations: None,
        backend_tls: None,
        backend_auth: None,
        http: None,
        tcp: None,
        backend_tunnel: None,
    }
}

fn picker_policies() -> LocalBackendPolicies {
    let mut p = LocalBackendPolicies::simple(simple_policies());
    p.inference_routing = Some(Arc::new(InferenceRouting::from_config(
        Arc::new(SimpleBackendReference::Backend(s("/epp"))),
        InferenceRoutingDestinationMode::Validated,
    )));
    p
}

fn server_tls() -> Arc<ServerTLSConfig> {
    Arc::new(ServerTLSConfig {
        cert: vec![1],
        key: vec![2],
        root: None,
        alpn: vec![],
        min_version: None,
        max_version: None,
        cipher_suites: None,
        key_exchange_groups: None,
    })
}

fn refused<T>(r: Result<T, ConfigError>) -> String {
    match r {
        Ok(_) => panic!("expected a refusal"),
        Err(e) => e.message,
    }
}

// ------------------------------------------------------------------------------------------
// Conditional policies
// ------------------------------------------------------------------------------------------

fn conditions(list: Vec<Option<&str>>) -> LocalConditionalPolicies<PolicyBody> {
    LocalConditionalPolicies {
        conditional: list
            .into_iter()
            .map(|c| LocalConditionalPolicy {
                policy: body("p"),
                condition: c.map(expression),
            })
            .collect(),
    }
}

#[test]
fn a_fallback_must_be_last() {
    assert!(validate_local_conditional_policies(&conditions(vec![Some("a"), None])).is_ok());
    assert!(validate_local_conditional_policies(&conditions(vec![Some("a"); 64])).is_ok());
    assert_eq!(
        refused(validate_local_conditional_policies(&conditions(vec![
            None,
            Some("a")
        ]))),
        "conditional policy entries without condition must be last"
    );
    assert_eq!(
        refused(validate_local_conditional_policies(&conditions(vec![]))),
        "conditional policies must have at least one entry"
    );
    assert_eq!(
        refused(validate_local_conditional_policies(&conditions(vec![
            Some("a");
            65
        ]))),
        "conditional policies may have at most 64 entries"
    );
}

#[test]
fn policies_are_explicit_or_conditional() {
    let explicit = LocalExplicitOrConditional::Explicit(DirectResponse {
        body: s("hi"),
        status: 200,
    });
    assert!(matches!(
        explicit.into_policy(),
        Ok(RequestPolicy::Single(p)) if p.body == "hi"
    ));
    let conditional: LocalExplicitOrConditional<DirectResponse> =
        LocalExplicitOrConditional::Conditional(LocalConditionalPolicies {
            conditional: vec![LocalConditionalPolicy {
                policy: Arc::new(DirectResponse {
                    body: s("hi"),
                    status: 200,
                }),
                condition: Some(expression("true")),
            }],
        });
    assert!(matches!(
        conditional.into_policy(),
        Ok(RequestPolicy::Conditional(p)) if p.len() == 1
    ));
    let failed: LocalExplicitOrConditional<Result<Arc<PolicyBody>, String>> =
        LocalExplicitOrConditional::Explicit(Err(s("bad expression")));
    assert_eq!(
        refused(failed.into_transformation_policy()),
        "bad expression"
    );
}

#[test]
fn rate_limits_may_be_empty() {
    assert!(LocalRateLimitPolicy::Explicit(vec![]).is_empty());
    let limits = LocalRateLimitPolicy::Explicit(vec![body("a"), body("b")]);
    assert!(!limits.is_empty());
    match limits.into_request_policy() {
        Ok(RequestPolicy::Single(p)) => assert_eq!(p.limits.len(), 2),
        other => panic!("unexpected policy {other:?}"),
    }
}

// ------------------------------------------------------------------------------------------
// Policies of backends
// ------------------------------------------------------------------------------------------

#[test]
fn a_plain_key_is_a_key() {
    let auth = de_backend_auth(Some(BackendAuthCompat::PlainKey { key: s("k") }));
    assert!(matches!(
        auth.as_deref(),
        Some(BackendAuth::Key { value, location: None }) if value == "k"
    ));
    assert!(de_backend_auth(None).is_none());
}

#[test]
fn transformations_are_compiled() {
    assert!(de_transform(None).is_ok_and(|t| t.is_none()));
    assert!(de_transform(Some(Ok(body("t")))).is_ok_and(|t| t.is_some()));
    assert_eq!(refused(de_transform(Some(Err(s("syntax"))))), "syntax");
}

#[test]
fn backend_policies_come_in_order() {
    let mut simple = simple_policies();
    simple.backend_tls = Some(Ok(body("tls")));
    simple.backend_tunnel = Some(body("tunnel"));
    let list = match de_from_local_backend_policy(simple) {
        Ok(l) => l,
        Err(e) => panic!("refused: {}", e.message),
    };
    assert_eq!(list.len(), 2);
    assert!(list
        .iter()
        .any(|p| matches!(p, BackendTrafficPolicy::BackendTLS(b) if is_body(b, "tls"))));
    assert!(translate_backend_policies(None).is_ok_and(|l| l.is_empty()));

    let mut simple = simple_policies();
    simple.backend_tls = Some(Err(s("no such file")));
    assert_eq!(
        refused(de_from_local_backend_policy(simple)),
        "no such file"
    );
    let mut full = LocalBackendPolicies::simple(simple_policies());
    full.health = Some(Err(s("syntax")));
    assert_eq!(
        refused(translate_backend_policies(Some(full))),
        "health.unhealthyExpression: syntax"
    );
    let tcp = LocalTCPBackendPolicies {
        backend_tls: Some(Ok(body("tls"))),
        backend_tunnel: None,
    };
    assert!(tcp.translate().is_ok_and(|l| l.len() == 1));
}

#[test]
fn endpoint_pickers_are_for_services() {
    let p = Some(picker_policies());
    assert!(
        validate_inference_routing_scope(&p, InferenceRoutingScope::ServiceRouteBackend).is_ok()
    );
    assert!(
        validate_inference_routing_scope(&None, InferenceRoutingScope::NamedBackend).is_ok()
    );
    assert_eq!(
        refused(validate_inference_routing_scope(
            &p,
            InferenceRoutingScope::NonServiceRouteBackend
        )),
        "inferenceRouting is only supported on service route backends"
    );
    assert_eq!(
        refused(validate_inference_routing_scope(
            &p,
            InferenceRoutingScope::NamedBackend
        )),
        "inferenceRouting is only supported on service route backends, not named backends"
    );
    assert_eq!(
        refused(validate_inference_routing_scope(
            &p,
            InferenceRoutingScope::AIProviderPolicies
        )),
        "inferenceRouting is only supported on service route backends, not AI provider policies"
    );
}

// ------------------------------------------------------------------------------------------
// Policies of requests
// ------------------------------------------------------------------------------------------

#[test]
fn policies_are_split_by_where_they_apply() {
    let mut pol = FilterOrPolicy::empty();
    pol.timeout = Some(Arc::new(TimeoutPolicy {
        request_timeout: Some(1),
        backend_request_timeout: None,
    }));
    pol.url_rewrite = Some(plain("rewrite"));
    pol.backend_tunnel = Some(body("tunnel"));
    let resolved = split_policies(pol, None).expect("policies");
    assert_eq!(resolved.route_policies.len(), 2);
    assert!(matches!(
        resolved.route_policies[0],
        TrafficPolicy::UrlRewrite(_)
    ));
    assert!(matches!(resolved.route_policies[1], TrafficPolicy::Timeout(_)));
    assert_eq!(resolved.backend_policies.len(), 1);
    assert!(matches!(
        resolved.backend_policies[0],
        BackendTrafficPolicy::Tunnel(_)
    ));
}

#[test]
fn oidc_needs_a_secret_and_a_place() {
    let oidc = || {
        let mut pol = FilterOrPolicy::empty();
        pol.oidc = Some(Ok(body("provider")));
        pol
    };
    let place = |encoder| AttachedPolicyContext {
        oidc_policy_id: PolicyId::Policy(s("p")),
        oidc_cookie_encoder: encoder,
    };
    assert_eq!(
        refused(split_policies(oidc(), None)),
        "oidc policies must be attached"
    );
    assert_eq!(
        refused(split_policies(oidc(), Some(place(None)))),
        "OIDC_COOKIE_SECRET is required when oidc is configured"
    );
    let encoder = Arc::new(Encoder { secret: s("x") });
    let resolved = split_policies(oidc(), Some(place(Some(encoder)))).expect("policies");
    match &resolved.route_policies[0] {
        TrafficPolicy::Oidc(RequestPolicy::Single(p)) => {
            assert!(matches!(&p.policy_id, PolicyId::Policy(id) if id == "p"));
            assert!(is_body(&p.provider, "provider"));
        }
        other => panic!("unexpected policy {other:?}"),
    }
    let mut pol = FilterOrPolicy::empty();
    pol.jwt_auth = Some(Err(s("no keys")));
    assert_eq!(refused(split_policies(pol, None)), "no keys");
}

#[test]
fn gateway_policies_are_among_all_policies() {
    let gateway = LocalGatewayPolicy {
        oidc: None,
        jwt_auth: None,
        ext_authz: None,
        ext_proc: None,
        ext_mcp: None,
        transformations: None,
        basic_auth: Some(Ok(body("basic"))),
        api_key: None,
    };
    let pol = FilterOrPolicy::from(gateway);
    assert!(pol.basic_auth.is_some());
    assert!(pol.timeout.is_none());
}

// ------------------------------------------------------------------------------------------
// Hosts of MCP targets
// ------------------------------------------------------------------------------------------

fn inline(host: &str, port: Option<u16>, path: Option<&str>) -> (String, u16, String, bool) {
    let host = McpBackendHost::from_fields(Some(s(host)), port, path.map(s), None).expect("a host");
    match host.process() {
        Ok(ProcessedMcpBackendHost::Inline { backend, path, tls }) => {
            (backend.host, backend.port, path, tls)
        }
        other => panic!("unexpected host {other:?}"),
    }
}

#[test]
fn hosts_are_urls_or_hosts_with_port_and_path() {
    assert_eq!(
        inline("example.com", Some(81), Some("/mcp")),
        (s("example.com"), 81, s("/mcp"), false)
    );
    assert_eq!(
        inline("http://example.com/mcp", None, None),
        (s("example.com"), 80, s("/mcp"), false)
    );
    assert_eq!(
        inline("https://example.com/mcp?x=1", None, None),
        (s("example.com"), 443, s("/mcp"), true)
    );
    assert_eq!(
        inline("https://example.com:8443", None, None),
        (s("example.com"), 8443, s("/"), true)
    );
}

#[test]
fn hosts_that_make_no_sense_are_refused() {
    let fields = McpBackendHost::from_fields;
    assert_eq!(
        refused(fields(Some(s("a")), None, None, Some(s("b")))),
        "cannot mix host/port with backend for MCP target backend configuration"
    );
    assert_eq!(
        refused(fields(None, Some(1), None, Some(s("b")))),
        "cannot mix host/port with backend for MCP target backend configuration"
    );
    assert_eq!(
        refused(fields(None, Some(1), None, None)),
        "host is required when port is set for MCP target backend configuration"
    );
    assert_eq!(
        refused(fields(None, None, Some(s("/p")), None)),
        "host or backend is required when path is set for MCP target backend configuration"
    );
    assert_eq!(
        refused(fields(None, None, None, None)),
        "host or backend is required for MCP target backend configuration"
    );
    let half = fields(Some(s("a")), Some(1), None, None).expect("a host");
    assert_eq!(
        refused(half.process()),
        "if port or path is set, both must be set; otherwise, use only host"
    );
    let odd = fields(Some(s("ftp://example.com/")), None, None, None).expect("a host");
    assert_eq!(refused(odd.process()), "invalid scheme: \"ftp\"");
    let path_only = fields(Some(s("/only/a/path")), None, None, None).expect("a host");
    assert_eq!(refused(path_only.process()), "no host");
    let broken = fields(Some(s("http://exa mple")), None, None, None).expect("a host");
    assert_eq!(refused(broken.process()), "invalid uri character");
    let reference = fields(None, None, None, Some(s("/b"))).expect("a host");
    assert!(matches!(
        reference.process(),
        Ok(ProcessedMcpBackendHost::Reference { path: None, .. })
    ));
}

// ------------------------------------------------------------------------------------------
// Backends
// ------------------------------------------------------------------------------------------

fn mcp_over(spec: LocalMcpTargetSpec, name_check: Result<(), String>) -> LocalMcpBackend {
    LocalMcpBackend {
        targets: vec![LocalMcpTarget {
            name: s("t"),
            name_check,
            spec,
            policies: None,
        }],
        stateful_mode: McpStatefulMode::Stateful,
        prefix_mode: None,
        failure_mode: None,
    }
}

fn streamable(host: &str) -> LocalMcpTargetSpec {
    LocalMcpTargetSpec::Mcp {
        backend: McpBackendHost::Host {
            host: s(host),
            port: None,
            path: None,
        },
    }
}

fn made(backend: LocalBackend) -> Result<Vec<BackendWithPolicies>, ConfigError> {
    backend.as_backends(
        ResourceName::new(s("b"), s("")),
        &config().default_backend_tls,
        1_800_000_000_001,
    )
}

#[test]
fn an_mcp_target_gets_a_backend_of_its_own() {
    let list = match made(LocalBackend::MCP(mcp_over(
        streamable("https://example.com/mcp"),
        Ok(()),
    ))) {
        Ok(l) => l,
        Err(e) => panic!("refused: {}", e.message),
    };
    assert_eq!(list.len(), 2);
    let key = match &list[1].backend {
        Backend::MCP(name, mcp) => {
            assert_eq!(name.name, "b");
            assert!(mcp.stateful);
            assert!(!mcp.always_use_prefix);
            assert_eq!(mcp.session_idle_ttl, 1_800_000_000_001);
            match &*mcp.targets[0].spec {
                McpTargetSpec::Mcp { backend, path } => {
                    assert_eq!(path, "/mcp");
                    match backend {
                        SimpleBackendReference::Backend(k) => k.clone(),
                        other => panic!("unexpected reference {other:?}"),
                    }
                }
                other => panic!("unexpected target {other:?}"),
            }
        }
        other => panic!("unexpected backend {other:?}"),
    };
    assert_eq!(list[0].backend.name(), key);
    assert!(matches!(&list[0].backend, Backend::Opaque(_, t) if t.port == 443));
    assert!(list[0]
        .inline_policies
        .iter()
        .any(|p| matches!(p, BackendTrafficPolicy::BackendTLS(b) if is_body(b, "default tls"))));
}

#[test]
fn mcp_targets_may_be_refused() {
    let bad = mcp_over(streamable("http://example.com/"), Err(s("bad name")));
    assert_eq!(refused(made(LocalBackend::MCP(bad))), "bad name");
    let schema = LocalMcpTargetSpec::OpenAPI {
        backend: McpBackendHost::Host {
            host: s("http://example.com/"),
            port: None,
            path: None,
        },
        schema: Err(s("no such schema")),
    };
    assert_eq!(
        refused(made(LocalBackend::MCP(mcp_over(schema, Ok(()))))),
        "no such schema"
    );
    let no_path = LocalMcpTargetSpec::Mcp {
        backend: McpBackendHost::Backend {
            backend: s("/other"),
            path: None,
        },
    };
    assert_eq!(
        refused(made(LocalBackend::MCP(mcp_over(no_path, Ok(()))))),
        "path is required when backend is set"
    );
}

#[test]
fn prefixes_may_be_required() {
    let mut mcp = mcp_over(
        LocalMcpTargetSpec::Stdio {
            cmd: s("run"),
            args: vec![s("-v")],
            env: vec![],
            clear_env: true,
        },
        Ok(()),
    );
    mcp.prefix_mode = Some(McpPrefixMode::Always);
    mcp.stateful_mode = McpStatefulMode::Stateless;
    let list = match made(LocalBackend::MCP(mcp)) {
        Ok(l) => l,
        Err(e) => panic!("refused: {}", e.message),
    };
    assert_eq!(list.len(), 1);
    match &list[0].backend {
        Backend::MCP(_, mcp) => {
            assert!(mcp.always_use_prefix);
            assert!(!mcp.stateful);
            assert!(matches!(
                &*mcp.targets[0].spec,
                McpTargetSpec::Stdio {
                    clear_env: true,
                    ..
                }
            ));
        }
        other => panic!("unexpected backend {other:?}"),
    }
}

fn provider(name: &str) -> LocalNamedAIProvider {
    LocalNamedAIProvider {
        name: s(name),
        provider: AIProvider::OpenAI { model: None },
        host_override: None,
        path_override: None,
        path_prefix: None,
        tokenize: false,
        policies: None,
    }
}

#[test]
fn groups_of_providers_keep_their_order() {
    let groups = LocalAIBackend::Groups {
        groups: vec![
            LocalAIProviders {
                providers: vec![provider("a"), provider("b")],
            },
            LocalAIProviders {
                providers: vec![provider("c")],
            },
        ],
    };
    let ai = match groups.translate() {
        Ok(ai) => ai,
        Err(e) => panic!("refused: {}", e.message),
    };
    assert_eq!(ai.providers.len(), 2);
    let names: Vec<&str> = ai.providers[0].iter().map(|p| p.0.as_str()).collect();
    assert_eq!(names, vec!["a", "b"]);

    let mut bad = provider("a");
    bad.policies = Some(picker_policies());
    assert_eq!(
        refused(LocalAIBackend::Provider(bad).translate()),
        "inferenceRouting is only supported on service route backends, not AI provider policies"
    );
}

#[test]
fn simple_backends_are_made_unless_they_are_references() {
    let name = || ResourceName::new(s("b"), s(""));
    assert!(matches!(
        SimpleLocalBackend::Opaque(target("h", 1)).as_backend(name()),
        Some(Backend::Opaque(_, _))
    ));
    assert!(SimpleLocalBackend::Backend(s("/x")).as_backend(name()).is_none());
    assert!(SimpleLocalBackend::Invalid
        .as_backends(name(), vec![])
        .is_some());
    let from: LocalBackend = FullLocalBackendSpec::Opaque(target("h", 1)).into();
    assert!(matches!(from, LocalBackend::Opaque(_)));
}

// ------------------------------------------------------------------------------------------
// Routes
// ------------------------------------------------------------------------------------------

#[test]
fn a_route_finds_its_backend() {
    let (route, backends) = match convert_route(
        &config(),
        route_to(LocalBackend::Opaque(target("example.com", 80))),
        3,
        "default/default/bind/3000/listener0",
    ) {
        Ok(r) => r,
        Err(e) => panic!("refused: {}", e.message),
    };
    assert_eq!(
        route.key,
        "default/default/bind/3000/listener0/default/route3"
    );
    assert_eq!(
        route.name,
        RouteName {
            name: s("route3"),
            namespace: s("default"),
            rule_name: None,
            kind: None,
        }
    );
    assert_eq!(route.backends[0].weight, 1);
    assert_eq!(backends.len(), 1);
    assert_eq!(
        backends[0].backend.name(),
        "/default/default/bind/3000/listener0/default/route3/backend0"
    );
    assert_eq!(
        route.backends[0].target,
        RouteBackendTarget::Backend(BackendReference::Backend(backends[0].backend.name()))
    );
    assert!(matches!(&route.matches[0].path, PathMatch::PathPrefix(p) if p == "/"));
}

#[test]
fn references_of_routes_are_kept() {
    let kept = |b| match convert_route(&config(), route_to(b), 0, "l") {
        Ok((route, backends)) => {
            assert!(backends.is_empty());
            route.backends.into_iter().next().unwrap().target
        }
        Err(e) => panic!("refused: {}", e.message),
    };
    assert_eq!(
        kept(LocalBackend::Backend(s("/x"))),
        RouteBackendTarget::Backend(BackendReference::Backend(s("/x")))
    );
    assert_eq!(
        kept(LocalBackend::RouteGroup(s("g"))),
        RouteBackendTarget::RouteGroup(s("g"))
    );
    let name = NamespacedHostname {
        namespace: s("ns"),
        hostname: s("svc"),
    };
    assert_eq!(
        kept(LocalBackend::Service {
            name: name.copy(),
            port: 80
        }),
        RouteBackendTarget::Backend(BackendReference::Service { name, port: 80 })
    );
}

#[test]
fn a_picker_on_another_backend_is_refused() {
    let mut route = route_to(LocalBackend::Opaque(target("example.com", 80)));
    route.backends[0].policies = Some(picker_policies());
    assert_eq!(
        refused(convert_route(&config(), route, 0, "l")),
        "inferenceRouting is only supported on service route backends"
    );
}

fn tcp_route(backend: SimpleLocalBackend) -> LocalTCPRoute {
    LocalTCPRoute {
        name: unnamed(),
        hostnames: vec![],
        policies: Some(TCPFilterOrPolicy { backend_tls: None }),
        backends: vec![LocalTCPRouteBackend {
            weight: 2,
            backend,
            policies: None,
        }],
    }
}

#[test]
fn a_tcp_route_finds_its_backend() {
    let opaque = tcp_route(SimpleLocalBackend::Opaque(target("example.com", 5432)));
    let (route, _, backends) = match convert_tcp_route(opaque, 1, "l") {
        Ok(r) => r,
        Err(e) => panic!("refused: {}", e.message),
    };
    assert_eq!(route.key, "l/default/tcproute1");
    assert_eq!(route.backends[0].weight, 2);
    assert_eq!(
        route.backends[0].backend,
        SimpleBackendReference::Backend(backends[0].backend.name())
    );

    let named = tcp_route(SimpleLocalBackend::Backend(s("/db")));
    let (route, _, backends) = match convert_tcp_route(named, 1, "l") {
        Ok(r) => r,
        Err(e) => panic!("refused: {}", e.message),
    };
    assert!(backends.is_empty());
    assert_eq!(
        route.backends[0].backend,
        SimpleBackendReference::Backend(s("/db"))
    );
}

// ------------------------------------------------------------------------------------------
// Listeners
// ------------------------------------------------------------------------------------------

fn listen(l: LocalListener) -> Result<ListenerProtocol, ConfigError> {
    convert_listener(&config(), 0, l, "bind/3000", &gateway()).map(|c| c.listener.protocol)
}

#[test]
fn a_listener_needs_what_its_protocol_needs() {
    assert!(matches!(
        listen(http_listener(vec![])),
        Ok(ListenerProtocol::HTTP)
    ));
    let mut l = http_listener(vec![]);
    l.routes = None;
    assert_eq!(refused(listen(l)), "protocol HTTP requires 'routes'");

    let mut l = http_listener(vec![]);
    l.protocol = LocalListenerProtocol::HTTPS;
    assert_eq!(refused(listen(l)), "HTTPS listener requires 'tls'");
    let mut l = http_listener(vec![]);
    l.protocol = LocalListenerProtocol::HTTPS;
    l.tls = Some(Err(s("no such file")));
    assert_eq!(refused(listen(l)), "no such file");
    let mut l = http_listener(vec![]);
    l.protocol = LocalListenerProtocol::HTTPS;
    l.routes = None;
    assert_eq!(refused(listen(l)), "protocol HTTPS requires 'routes'");

    let mut l = http_listener(vec![]);
    l.protocol = LocalListenerProtocol::TLS;
    assert_eq!(refused(listen(l)), "protocol TLS requires 'tcpRoutes'");
    let mut l = http_listener(vec![]);
    l.protocol = LocalListenerProtocol::TCP;
    assert_eq!(refused(listen(l)), "protocol TCP requires 'tcpRoutes'");
    let mut l = http_listener(vec![]);
    l.tcp_routes = Some(vec![]);
    assert_eq!(
        refused(listen(l)),
        "only 'routes' or 'tcpRoutes' may be set"
    );
    let mut l = http_listener(vec![]);
    l.protocol = LocalListenerProtocol::TLS;
    l.routes = None;
    l.tcp_routes = Some(vec![]);
    assert!(matches!(listen(l), Ok(ListenerProtocol::TLS(None))));
}

#[test]
fn tls_settings_need_their_files() {
    let settings = || LocalTLSServerConfig {
        cert: s("cert.pem"),
        key: s("key.pem"),
        root: None,
        cipher_suites: None,
        min_tls_version: Some(TLSVersion::TLS12),
        max_tls_version: None,
        key_exchange_groups: None,
    };
    let made = match settings().into_server_config(Ok(vec![1]), Ok(vec![2]), None) {
        Ok(c) => c,
        Err(e) => panic!("refused: {}", e.message),
    };
    assert_eq!(made.cert, vec![1]);
    assert_eq!(made.key, vec![2]);
    assert_eq!(made.alpn, vec![s("h2"), s("http/1.1")]);
    assert_eq!(made.min_version, Some(TLSVersion::TLS12));
    assert_eq!(
        refused(settings().into_server_config(Ok(vec![1]), Err(s("gone")), None)),
        "gone"
    );
}

#[test]
fn policies_of_a_listener_are_attached_to_it() {
    let mut l = http_listener(vec![]);
    l.name.name = Some(s("web"));
    l.hostname = Some(s("*.example.com"));
    l.policies = Some(LocalGatewayPolicy {
        oidc: None,
        jwt_auth: None,
        ext_authz: None,
        ext_proc: None,
        ext_mcp: None,
        transformations: None,
        basic_auth: Some(Ok(body("basic"))),
        api_key: Some(plain("key")),
    });
    let c = match convert_listener(&config(), 0, l, "bind/3000", &gateway()) {
        Ok(c) => c,
        Err(e) => panic!("refused: {}", e.message),
    };
    assert_eq!(c.listener.key, "default/default/bind/3000/web");
    assert_eq!(c.listener.hostname, "*.example.com");
    assert_eq!(c.policies.len(), 2);
    assert_ne!(c.policies[0].key, c.policies[1].key);
    for p in &c.policies {
        assert!(matches!(
            p.policy,
            PolicyType::Traffic(_, PolicyPhase::Gateway)
        ));
        assert!(matches!(
            &p.target,
            PolicyTarget::Gateway(t) if t.listener_name == Some(s("web"))
        ));
    }
}

// ------------------------------------------------------------------------------------------
// Models
// ------------------------------------------------------------------------------------------

fn params() -> LocalLLMParams {
    LocalLLMParams {
        model: None,
        api_key: None,
        aws_region: None,
        vertex_region: None,
        vertex_project: None,
        azure_resource_name: None,
        azure_resource_type: None,
        azure_api_version: None,
        azure_project_name: None,
        base_url: None,
        host_override: None,
        path_override: None,
        path_prefix: None,
        tokenize: false,
    }
}

fn model(name: &str, provider: LocalModelAIProvider) -> LocalLLMModels {
    LocalLLMModels {
        name: s(name),
        params: params(),
        provider,
        defaults: None,
        overrides: None,
        transformation: None,
        request_headers: None,
        response_headers: None,
        backend_tls: None,
        auth: None,
        health: None,
        backend_tunnel: None,
        guardrails: None,
        matches: vec![],
    }
}

fn matched(name: &str) -> HeaderValueMatch {
    match llm_model_name_header_match(name) {
        Ok(m) => m,
        Err(e) => panic!("refused: {}", e.message),
    }
}

#[test]
fn model_names_may_hold_a_wildcard_at_an_end() {
    assert_eq!(matched("gpt-4.1"), HeaderValueMatch::Exact(s("gpt-4.1")));
    assert_eq!(matched("*"), HeaderValueMatch::Regex(s(".*")));
    assert_eq!(
        matched("gpt-4.1*"),
        HeaderValueMatch::Regex(s(r"gpt\-4\.1.*"))
    );
    assert_eq!(
        matched("*-mini"),
        HeaderValueMatch::Regex(s(r".*\-mini"))
    );
    assert_eq!(
        refused(llm_model_name_header_match("a*b")),
        "model name wildcard must be either at the beginning or the end: 'a*b'"
    );
    assert_eq!(
        refused(llm_model_name_header_match("*a*")),
        "model name '*a*' may only include a single '*' wildcard"
    );
    assert_eq!(
        refused(llm_model_name_header_match("a\nb")),
        "failed to parse header value"
    );
}

#[test]
fn a_base_url_sets_the_host() {
    let tls = config().default_backend_tls;
    let mut m = model("m", LocalModelAIProvider::OpenAI);
    m.params.base_url = Some(s("https://example.com/v1/"));
    assert!(m.apply_base_url(&tls).is_ok());
    assert_eq!(m.params.host_override, Some(target("example.com", 443)));
    assert_eq!(m.params.path_prefix, Some(s("/v1")));
    assert!(m.backend_tls.is_some());

    let mut m = model("m", LocalModelAIProvider::OpenAI);
    m.params.base_url = Some(s("http://example.com:8080"));
    m.params.path_prefix = Some(s("/kept"));
    assert!(m.apply_base_url(&tls).is_ok());
    assert_eq!(m.params.host_override, Some(target("example.com", 8080)));
    assert_eq!(m.params.path_prefix, Some(s("/kept")));
    assert!(m.backend_tls.is_none());

    let url = |u: &str| {
        let mut m = model("m", LocalModelAIProvider::OpenAI);
        m.params.base_url = Some(s(u));
        refused(m.apply_base_url(&tls))
    };
    assert_eq!(url("example.com"), "invalid params.baseUrl for model m");
    assert_eq!(
        url("grpc://example.com"),
        "params.baseUrl for model m must use http or https, or include an explicit port"
    );
}

#[test]
fn providers_need_their_settings() {
    let provided = |m: LocalLLMModels| m.make_provider();
    assert!(matches!(
        provided(model("m", LocalModelAIProvider::Gemini)),
        Ok(AIProvider::Gemini { model: None })
    ));
    assert_eq!(
        refused(provided(model("m", LocalModelAIProvider::Vertex))),
        "vertex requires vertex_project"
    );
    assert_eq!(
        refused(provided(model("m", LocalModelAIProvider::Bedrock))),
        "bedrock requires aws_region"
    );
    assert_eq!(
        refused(provided(model("m", LocalModelAIProvider::Azure))),
        "azure requires azureResourceName"
    );
    let mut azure = model("m", LocalModelAIProvider::Azure);
    azure.params.azure_resource_name = Some(s("r"));
    assert_eq!(
        refused(azure.make_provider()),
        "azure requires azureResourceType"
    );
    azure.params.azure_resource_type = Some(AzureResourceType::Foundry);
    assert!(matches!(
        azure.make_provider(),
        Ok(AIProvider::Azure { resource_name, .. }) if resource_name == "r"
    ));
}

#[test]
fn models_are_listed_and_routed() {
    let mut first = model("gpt \"4\"", LocalModelAIProvider::OpenAI);
    first.request_headers = Some(HeaderModifier {
        add: vec![],
        set: vec![(s("x-a"), s("b"))],
        remove: vec![],
    });
    let mut second = model("mistral*", LocalModelAIProvider::Anthropic);
    second.matches = vec![LLMRouteMatch {
        headers: vec![Arc::new(HeaderMatch {
            name: HeaderOrPseudo::Header(s("x-tenant")),
            value: HeaderValueMatch::Exact(s("t")),
        })],
    }];
    let llm = LocalLLMConfig {
        port: None,
        models: vec![first, second],
        policies: Some(LocalLLMPolicy {
            gateway: LocalGatewayPolicy {
                oidc: None,
                jwt_auth: None,
                ext_authz: None,
                ext_proc: None,
                ext_mcp: None,
                transformations: None,
                basic_auth: Some(Ok(body("basic"))),
                api_key: None,
            },
            authorization: Some(Arc::new(RuleSet {
                allow: vec![],
                deny: vec![],
                require: vec![],
            })),
            local_rate_limit: vec![],
            remote_rate_limit: None,
        }),
    };
    let c = match convert_llm_config(&config(), &gateway(), llm, Ok(body("model name")), 17) {
        Ok(c) => c,
        Err(e) => panic!("refused: {}", e.message),
    };
    assert_eq!(c.bind.key, "bind/4000");
    assert_eq!(c.bind.address, SocketAddr::V4 { ip: 0, port: 4000 });
    assert!(c.bind.listeners.contains("llm"));

    assert_eq!(c.routes.len(), 3);
    assert_eq!(c.routes[0].key, "llm:admin:model-list");
    match &c.routes[0].inline_policies[1] {
        TrafficPolicy::DirectResponse(RequestPolicy::Single(r)) => {
            assert_eq!(r.status, 200);
            assert_eq!(
                r.body,
                concat_list(&[
                    r#"{"data":["#,
                    r#"{"created":17,"id":"gpt \"4\"","object":"model","owned_by":"openai"},"#,
                    r#"{"created":17,"id":"mistral*","object":"model","owned_by":"openai"}"#,
                    r#"],"object":"list"}"#,
                ])
            );
        }
        other => panic!("unexpected policy {other:?}"),
    }
    assert_eq!(c.routes[1].key, "llm:model:000000:gpt \"4\"");
    assert_eq!(c.routes[2].key, "llm:model:000001:mistral*");
    assert_eq!(c.routes[2].matches.len(), 1);
    assert_eq!(c.routes[2].matches[0].headers.len(), 2);
    assert_eq!(
        *c.routes[2].matches[0].headers[1],
        HeaderMatch {
            name: HeaderOrPseudo::Header(s("x-gateway-model-name")),
            value: HeaderValueMatch::Regex(s("mistral.*")),
        }
    );
    for i in 0..2 {
        assert_eq!(
            c.routes[i + 1].backends[0].target,
            RouteBackendTarget::Backend(BackendReference::Backend(c.backends[i].backend.name()))
        );
    }
    assert_eq!(c.backends[1].backend.name(), "/llm:model:mistral*:1");

    assert!(matches!(&c.backends[0].backend, Backend::AI(_, ai) if ai.providers.len() == 1));
    let drops = c.backends[0].inline_policies.iter().any(|p| {
        matches!(
            p,
            BackendTrafficPolicy::RequestHeaderModifier(h)
                if h.remove.contains(&s(MODEL_NAME_HEADER)) && h.set == vec![(s("x-a"), s("b"))]
        )
    });
    assert!(drops);

    assert_eq!(c.policies.len(), 3);
    assert!(matches!(
        c.policies[0].policy,
        PolicyType::Traffic(_, PolicyPhase::Gateway)
    ));
    assert!(matches!(
        c.policies[1].policy,
        PolicyType::Traffic(_, PolicyPhase::Route)
    ));
    assert_eq!(c.policies[2].key, "llm:transformation");
}

fn concat_list(parts: &[&str]) -> String {
    parts.concat()
}

#[test]
fn a_model_that_is_refused_refuses_the_configuration() {
    let llm = LocalLLMConfig {
        port: Some(5000),
        models: vec![model("m", LocalModelAIProvider::Bedrock)],
        policies: None,
    };
    assert_eq!(
        refused(convert_llm_config(
            &config(),
            &gateway(),
            llm,
            Ok(body("t")),
            0
        )),
        "bedrock requires aws_region"
    );
    assert_eq!(
        quoted_model_list(0, &vec![]),
        r#"{"data":[],"object":"list"}"#
    );
}

#[test]
fn names_of_models_are_quoted() {
    let llm = LocalLLMConfig {
        port: None,
        models: vec![model("\\\t\u{1}\u{1f}é*", LocalModelAIProvider::OpenAI)],
        policies: None,
    };
    let c = match convert_llm_config(&config(), &gateway(), llm, Ok(body("t")), 0) {
        Ok(c) => c,
        Err(e) => panic!("refused: {}", e.message),
    };
    match &c.routes[0].inline_policies[1] {
        TrafficPolicy::DirectResponse(RequestPolicy::Single(r)) => {
            assert!(r.body.contains(r#""id":"\\\t\u0001\u001fé*""#));
        }
        other => panic!("unexpected policy {other:?}"),
    }
}

#[test]
fn the_model_of_a_request_is_kept_in_a_header() {
    let t = model_name_transformation();
    let request = t.request.expect("a request transformation");
    assert_eq!(
        request.set,
        vec![(s("x-gateway-model-name"), s(MODEL_NAME_EXPRESSION))]
    );
    assert!(t.response.is_none());
}

#[test]
fn an_mcp_configuration_makes_one_bind() {
    let c = match convert_mcp_config(
        &config(),
        &gateway(),
        LocalSimpleMcpConfig {
            port: None,
            backend: mcp_over(streamable("http://example.com/mcp"), Ok(())),
            policies: None,
        },
    ) {
        Ok(c) => c,
        Err(e) => panic!("refused: {}", e.message),
    };
    assert_eq!(c.bind.key, "bind/3000");
    assert_eq!(c.routes.len(), 1);
    assert_eq!(c.routes[0].key, "mcp:default");
    assert_eq!(c.backends.len(), 2);
    assert_eq!(
        c.routes[0].backends[0].target,
        RouteBackendTarget::Backend(BackendReference::Backend(c.backends[1].backend.name()))
    );
}

// ------------------------------------------------------------------------------------------
// Policies of connections
// ------------------------------------------------------------------------------------------

fn tracing_config() -> Arc<TracingConfig> {
    Arc::new(TracingConfig {
        provider_backend: SimpleBackendReference::Backend(s("/otel")),
        policies: vec![],
        attributes: Arc::new(vec![(s("a"), expression("1"))]),
        resources: vec![],
        remove: Arc::new(vec![s("b")]),
        random_sampling: None,
        client_sampling: None,
        path: s("/v1/traces"),
        protocol: TracingProtocol::Http,
    })
}

fn logging_policy() -> Arc<LoggingPolicy> {
    Arc::new(LoggingPolicy {
        filter: None,
        add: Arc::new(vec![]),
        remove: Arc::new(vec![]),
        otlp: None,
        access_log_policy: None,
    })
}

fn old_tracing(endpoint: Option<TracingEndpoint>) -> DeprecatedTracing {
    DeprecatedTracing {
        endpoint,
        headers: vec![],
        headers_transformation: CompiledConfig {
            config: tracing_headers_transformation(vec![]),
            compiled: Ok(body("headers")),
        },
        protocol: TracingProtocol::Grpc,
        fields: LoggingFields {
            add: Arc::new(vec![]),
            remove: Arc::new(vec![]),
        },
        random_sampling: None,
        client_sampling: None,
        path: s("/v1/traces"),
    }
}

#[test]
fn frontend_policies_are_attached_to_the_gateway() {
    let mut pol = no_frontend_policies();
    pol.http = Some(body("http"));
    pol.tracing = Some(tracing_config());
    pol.access_log = Some(logging_policy());
    let list = split_frontend_policies(&gateway(), pol);
    let keys: Vec<&str> = list.iter().map(|p| p.key.as_str()).collect();
    assert_eq!(
        keys,
        vec!["frontend/http", "frontend/accessLog", "frontend/tracing"]
    );
    assert!(list
        .iter()
        .all(|p| matches!(&p.target, PolicyTarget::Gateway(t) if *t == gateway())));
}

#[test]
fn access_logs_are_sent_where_their_settings_say() {
    let mut pol = no_frontend_policies();
    pol.access_log = Some(Arc::new(LoggingPolicy {
        filter: Some(expression("true")),
        add: Arc::new(vec![]),
        remove: Arc::new(vec![s("secret")]),
        otlp: Some(body("otlp")),
        access_log_policy: None,
    }));
    let list = split_frontend_policies(&gateway(), pol);
    assert_eq!(list.len(), 1);
    match &list[0].policy {
        PolicyType::Frontend(FrontendPolicy::AccessLog(l)) => {
            let sent = l.access_log_policy.as_ref().expect("a destination");
            assert!(matches!(&sent.config.document, Json::Text(t) if t == "otlp"));
            assert_eq!(l.filter.as_ref().map(|e| e.source.as_str()), Some("true"));
            assert_eq!(*l.remove, vec![s("secret")]);
        }
        _ => panic!("no access log"),
    }

    let mut pol = no_frontend_policies();
    pol.access_log = Some(logging_policy());
    let list = split_frontend_policies(&gateway(), pol);
    match &list[0].policy {
        PolicyType::Frontend(FrontendPolicy::AccessLog(l)) => {
            assert!(l.access_log_policy.is_none());
        }
        _ => panic!("no access log"),
    }
}

#[test]
fn deprecated_settings_become_policies() {
    let mut c = config();
    c.logging.filter = Some(expression("true"));
    assert!(has_deprecated_frontend_log_fields(&c.logging));
    c.tracing = Some(old_tracing(Some(TracingEndpoint {
        text: s("http://otel:4317"),
        host_port: ReadTarget {
            text: strip_scheme("http://otel:4317"),
            target: Ok(target("otel", 4317)),
        },
    })));
    let merged = match merge_deprecated_frontend_policies(&c, no_frontend_policies()) {
        Ok(p) => p,
        Err(e) => panic!("refused: {}", e.message),
    };
    let log = merged.access_log.expect("an access log");
    assert_eq!(log.filter.as_ref().map(|e| e.source.as_str()), Some("true"));
    let tracing = merged.tracing.expect("tracing");
    assert_eq!(
        tracing.provider_backend,
        SimpleBackendReference::InlineBackend(target("otel", 4317))
    );
}

#[test]
fn headers_of_deprecated_tracing_become_a_transformation() {
    let mut c = config();
    let mut tracing = old_tracing(Some(TracingEndpoint {
        text: s("grpc://otel:4317"),
        host_port: ReadTarget {
            text: strip_scheme("grpc://otel:4317"),
            target: Ok(target("otel", 4317)),
        },
    }));
    tracing.headers = vec![(s("a"), s("b"))];
    tracing.headers_transformation = CompiledConfig {
        config: tracing_headers_transformation(vec![(s("a"), s("b"))]),
        compiled: Ok(body("headers")),
    };
    c.tracing = Some(tracing);
    let merged = match merge_deprecated_frontend_policies(&c, no_frontend_policies()) {
        Ok(p) => p,
        Err(e) => panic!("refused: {}", e.message),
    };
    assert_eq!(merged.tracing.expect("tracing").policies.len(), 1);

    let mut c = config();
    let mut tracing = old_tracing(None);
    tracing.headers = vec![(s("a"), s("b"))];
    tracing.headers_transformation = CompiledConfig {
        config: tracing_headers_transformation(vec![(s("a"), s("b"))]),
        compiled: Err(s("not an expression")),
    };
    c.tracing = Some(tracing);
    assert_eq!(
        refused(merge_deprecated_frontend_policies(
            &c,
            no_frontend_policies()
        )),
        "not an expression"
    );
}

#[test]
fn deprecated_settings_beside_new_ones_are_refused() {
    let mut c = config();
    c.logging.filter = Some(expression("true"));
    let mut pol = no_frontend_policies();
    pol.access_log = Some(logging_policy());
    assert_eq!(
        refused(merge_deprecated_frontend_policies(&c, pol)),
        "cannot use deprecated config.logging together with frontendPolicies.accessLog"
    );
    let mut c = config();
    c.tracing = Some(old_tracing(None));
    let mut pol = no_frontend_policies();
    pol.tracing = Some(tracing_config());
    assert_eq!(
        refused(merge_deprecated_frontend_policies(&c, pol)),
        "cannot use deprecated config.tracing together with frontendPolicies.tracing"
    );
    let mut c = config();
    c.tracing = Some(old_tracing(Some(TracingEndpoint {
        text: s("nonsense"),
        host_port: ReadTarget {
            text: strip_scheme("nonsense"),
            target: Err(s("no port")),
        },
    })));
    assert_eq!(
        refused(merge_deprecated_frontend_policies(
            &c,
            no_frontend_policies()
        )),
        "failed parsing tracing endpoint: nonsense"
    );
}

#[test]
fn schemes_of_endpoints_are_stripped() {
    assert_eq!(strip_scheme("http://otel:4317"), "otel:4317");
    assert_eq!(strip_scheme("https://otel"), "otel");
    assert_eq!(strip_scheme("grpc://otel"), "otel");
    assert_eq!(strip_scheme("otel:4317"), "otel:4317");
    let t = tracing_headers_transformation(vec![(s("a"), s("b"))]);
    assert_eq!(t.request.expect("a request").set, vec![(s("a"), s("b"))]);
}

// ------------------------------------------------------------------------------------------
// Whole configurations
// ------------------------------------------------------------------------------------------

#[test]
fn a_configuration_is_converted() {
    let mut c = empty_config();
    c.binds = vec![LocalBind {
        port: 3001,
        listeners: vec![http_listener(vec![
            route_to(LocalBackend::Opaque(target("a", 80))),
            route_to(LocalBackend::Backend(s("/named"))),
        ])],
        tunnel_protocol: TunnelProtocol::Proxy,
    }];
    c.backends = vec![FullLocalBackend {
        name: s("named"),
        spec: FullLocalBackendSpec::Opaque(target("b", 81)),
        policies: None,
    }];
    c.route_groups = vec![LocalRouteGroup {
        name: s("group"),
        routes: vec![route_to(LocalBackend::Opaque(target("c", 82)))],
    }];
    c.frontend_policies.http = Some(body("http"));
    let mut tunnel = FilterOrPolicy::empty();
    tunnel.backend_tunnel = Some(body("tunnel"));
    c.policies = vec![LocalPolicy {
        name: ResourceName::new(s("p"), s("ns")),
        target: PolicyTarget::Gateway(gateway()),
        phase: PolicyPhase::Route,
        policy: tunnel,
    }];
    let n = match convert(&gateway(), &config(), c) {
        Ok(n) => n,
        Err(e) => panic!("refused: {}", e.message),
    };
    assert_eq!(n.binds.len(), 1);
    assert_eq!(n.binds[0].key, "bind/3001");
    assert_eq!(n.binds[0].protocol, BindProtocol::http);
    assert_eq!(n.binds[0].tunnel_protocol, TunnelProtocol::Proxy);
    assert_eq!(n.listener_routes.len(), 1);
    assert_eq!(n.listener_routes[0].1.len(), 2);
    assert_eq!(n.route_groups.len(), 1);
    assert_eq!(n.route_groups[0].0, "group");
    let names: Vec<String> = n.backends.iter().map(|b| b.backend.name()).collect();
    assert_eq!(names.len(), 3);
    assert!(names.contains(&s("/named")));
    assert!(n.policies.iter().any(|p| p.key == "frontend/http"));
    assert!(n
        .policies
        .iter()
        .any(|p| matches!(p.policy, PolicyType::Backend(_))));
}

#[test]
fn binds_detect_their_protocol() {
    let protocol = |listeners| {
        let mut c = empty_config();
        c.binds = vec![LocalBind {
            port: 1,
            listeners,
            tunnel_protocol: TunnelProtocol::Direct,
        }];
        match convert(&gateway(), &config(), c) {
            Ok(n) => n.binds[0].protocol,
            Err(e) => panic!("refused: {}", e.message),
        }
    };
    let tcp = |name: &str, protocol| {
        let mut l = http_listener(vec![]);
        l.name.name = Some(s(name));
        l.protocol = protocol;
        l.routes = None;
        l.tcp_routes = Some(vec![]);
        l
    };
    assert_eq!(protocol(vec![]), BindProtocol::http);
    assert_eq!(
        protocol(vec![
            http_listener(vec![]),
            tcp("t", LocalListenerProtocol::TCP)
        ]),
        BindProtocol::tcp
    );
    let mut https = http_listener(vec![]);
    https.protocol = LocalListenerProtocol::HTTPS;
    https.tls = Some(Ok(server_tls()));
    assert_eq!(
        protocol(vec![tcp("t", LocalListenerProtocol::TCP), https]),
        BindProtocol::tls
    );
}

#[test]
fn a_policy_must_be_exactly_one() {
    let with = |policy, target| {
        let mut c = empty_config();
        c.policies = vec![LocalPolicy {
            name: ResourceName::new(s("p"), s("ns")),
            target,
            phase: PolicyPhase::Route,
            policy,
        }];
        convert(&gateway(), &config(), c)
    };
    assert_eq!(
        refused(with(
            FilterOrPolicy::empty(),
            PolicyTarget::Gateway(gateway())
        )),
        "'policies' must contain exactly 1 policy"
    );
    let mut two = FilterOrPolicy::empty();
    two.backend_tunnel = Some(body("tunnel"));
    two.url_rewrite = Some(plain("rewrite"));
    assert_eq!(
        refused(with(two, PolicyTarget::Gateway(gateway()))),
        "'policies' must contain exactly 1 policy"
    );
    let mut mixed = gateway();
    mixed.listener_name = Some(s("l"));
    mixed.port = Some(1);
    let mut one = FilterOrPolicy::empty();
    one.url_rewrite = Some(plain("rewrite"));
    assert_eq!(
        refused(with(one, PolicyTarget::Gateway(mixed))),
        "a gateway target cannot name both a listener and a port"
    );
}

#[test]
fn a_picker_on_a_named_backend_is_refused() {
    let mut c = empty_config();
    c.backends = vec![FullLocalBackend {
        name: s("named"),
        spec: FullLocalBackendSpec::Opaque(target("b", 81)),
        policies: Some(picker_policies()),
    }];
    assert_eq!(
        refused(convert(&gateway(), &config(), c)),
        "inferenceRouting is only supported on service route backends, not named backends"
    );
}

#[test]
fn models_and_mcp_have_binds_of_their_own() {
    let mut c = empty_config();
    c.llm = Some(LocalLLMConfig {
        port: None,
        models: vec![model("m", LocalModelAIProvider::OpenAI)],
        policies: None,
    });
    c.mcp = Some(LocalSimpleMcpConfig {
        port: Some(3333),
        backend: mcp_over(streamable("http://example.com/mcp"), Ok(())),
        policies: None,
    });
    let n = match convert(&gateway(), &config(), c) {
        Ok(n) => n,
        Err(e) => panic!("refused: {}", e.message),
    };
    let mut keys: Vec<&str> = n.binds.iter().map(|b| b.key.as_str()).collect();
    keys.sort();
    assert_eq!(keys, vec!["bind/3333", "bind/4000"]);
    let mut listeners: Vec<&str> = n.listener_routes.iter().map(|l| l.0.as_str()).collect();
    listeners.sort();
    assert_eq!(listeners, vec!["llm", "mcp"]);
}

// ------------------------------------------------------------------------------------------
// Deprecated settings in documents
// ------------------------------------------------------------------------------------------

fn object(fields: Vec<(&str, Json)>) -> Json {
    let mut map = StringMap::new();
    for (k, v) in fields {
        map.insert(s(k), Arc::new(v));
    }
    Json::Object(map)
}

fn at<'a>(doc: &'a Json, path: &[&str]) -> Option<&'a Json> {
    let mut here = doc;
    for key in path {
        here = here.as_object()?.get(key)?;
    }
    Some(here)
}

fn deprecated() -> Json {
    object(vec![
        (
            "config",
            object(vec![
                ("adminAddr", Json::Text(s("x"))),
                (
                    "logging",
                    object(vec![
                        ("filter", Json::Text(s("true"))),
                        ("level", Json::Text(s("info"))),
                    ]),
                ),
                ("tracing", object(vec![("otlpEndpoint", Json::Text(s("e")))])),
            ]),
        ),
        ("binds", Json::Array(vec![])),
    ])
}

#[test]
fn deprecated_settings_are_found() {
    let d = deprecated_document(&deprecated()).expect("deprecated settings");
    assert!(at(&d, &["config", "logging"]).is_some());
    assert!(at(&d, &["config", "tracing"]).is_some());
    assert!(at(&d, &["config", "adminAddr"]).is_none());
    assert!(at(&d, &["binds"]).is_none());
    assert!(deprecated_document(&object(vec![])).is_none());
    assert!(deprecated_document(&Json::Null).is_none());
}

#[test]
fn deprecated_settings_move() {
    let mut logging = no_logging();
    logging.filter = Some(expression("true"));
    let moved = match migrate_deprecated_frontend_policies(
        deprecated(),
        &logging,
        &Some(old_tracing(None)),
        Some(Ok(Arc::new(Json::Text(s("log"))))),
        Some(Ok(Arc::new(Json::Text(s("traces"))))),
    ) {
        Ok(j) => j,
        Err(e) => panic!("refused: {}", e.message),
    };
    assert!(at(&moved, &["config", "logging", "filter"]).is_none());
    assert!(at(&moved, &["config", "logging", "level"]).is_some());
    assert!(at(&moved, &["config", "tracing"]).is_none());
    assert!(at(&moved, &["config", "adminAddr"]).is_some());
    assert!(at(&moved, &["binds"]).is_some());
    assert!(matches!(
        at(&moved, &["frontendPolicies", "accessLog"]),
        Some(Json::Text(t)) if t == "log"
    ));
    assert!(matches!(
        at(&moved, &["frontendPolicies", "tracing"]),
        Some(Json::Text(t)) if t == "traces"
    ));
}

#[test]
fn settings_that_cannot_move_are_refused() {
    let mut logging = no_logging();
    logging.filter = Some(expression("true"));
    let cfg = object(vec![
        (
            "config",
            object(vec![("logging", object(vec![("filter", Json::Null)]))]),
        ),
        ("frontendPolicies", Json::Bool(true)),
    ]);
    assert_eq!(
        refused(migrate_deprecated_frontend_policies(
            cfg,
            &logging,
            &None,
            Some(Ok(Arc::new(Json::Null))),
            None
        )),
        "frontendPolicies must be an object"
    );
    assert_eq!(
        refused(migrate_deprecated_frontend_policies(
            deprecated(),
            &logging,
            &None,
            None,
            None
        )),
        "internal error: migrated accessLog was not generated"
    );
}

#[test]
fn the_schema_comment_is_replaced() {
    assert_eq!(
        without_schema_comment("# yaml-language-server: $schema=x\nbinds: []"),
        "#=x\nbinds: []"
    );
    assert_eq!(without_schema_comment("binds: []"), "binds: []");
}
