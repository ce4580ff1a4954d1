//! The store: what is inserted is found, and policies apply in their order of precedence.

use std::sync::Arc;
use std::time::Duration;

use agentgateway::ext_proc::{InferenceRouting, InferenceRoutingDestinationMode};
use agentgateway::json::Json;
use agentgateway::store::binds::{Store, ThreadingMode};
use agentgateway::store::model::{
    BindEvent, BindListeners, ResourceKind, RouteTarget, RouteTargetRef,
};
use agentgateway::store::policies::{FrontendPolices, LLMRequestPolicies, RoutePath};
use agentgateway::store::updater::{PreviousState, StoreUpdater};
use agentgateway::store::xds::{XdsBind, XdsResource, XdsUpdate};
use agentgateway::types::agent::{
    Backend, BackendTarget, BackendTargetRef, BackendWithPolicies, Bind, BindProtocol, Listener,
    ListenerName, ListenerProtocol, ListenerSet, ListenerSetTarget, ListenerTarget,
    NamespacedHostname, PolicyTarget, PolicyTargetRef, ResourceName, Route, RouteName,
    SimpleBackendReference, SocketAddr, TCPRoute, Target, TargetedPolicy, TunnelProtocol,
};
use agentgateway::types::frontend::{AccessLogPolicy, FrontendPolicy, LoggingPolicy};
use agentgateway::types::llm;
use agentgateway::types::llm::{AIBackend, AIProvider, NamedAIProvider};
use agentgateway::types::policy::{
    ConditionalEntry, ContextBuilder, Expression, HeaderModifier, NetworkAuthorizationSet, PolicyBody, RequestPolicy, RuleOutcome,
    RuleSet, TimeoutPolicy,
};
use agentgateway::types::traffic::{
    BackendTrafficPolicy, PolicyPhase, PolicyType, TrafficPolicy,
};

fn s(text: &str) -> String {
    text.to_string()
}

fn listener() -> ListenerName {
    ListenerName {
        gateway_name: s("gw"),
        gateway_namespace: s("ns"),
        listener_name: s("listener"),
        listener_set: None,
    }
}

fn route_name(name: &str, namespace: &str, kind: Option<&str>) -> RouteName {
    RouteName {
        name: s(name),
        namespace: s(namespace),
        rule_name: None,
        kind: kind.map(s),
    }
}

fn timeout(seconds: u64) -> Arc<TimeoutPolicy> {
    Arc::new(TimeoutPolicy {
        request_timeout: Some(Duration::from_secs(seconds).as_nanos()),
        backend_request_timeout: None,
    })
}

fn insert_route_timeout_policy(
    store: &mut Store,
    key: &str,
    route_target: RouteName,
    request_timeout_secs: u64,
) -> Arc<TimeoutPolicy> {
    let pol = timeout(request_timeout_secs);
    store.insert_policy(TargetedPolicy {
        key: s(key),
        name: None,
        target: PolicyTarget::Route(route_target),
        policy: PolicyType::Traffic(TrafficPolicy::Timeout(pol.clone()), PolicyPhase::Route),
    });
    pol
}

fn create_access_log_policy(remove_item: &str) -> FrontendPolicy {
    FrontendPolicy::AccessLog(Arc::new(LoggingPolicy {
        filter: None,
        add: Arc::new(vec![]),
        remove: Arc::new(vec![s(remove_item)]),
        otlp: None,
        access_log_policy: None,
    }))
}

fn create_network_authorization_policy(cidr: &str) -> FrontendPolicy {
    FrontendPolicy::NetworkAuthorization(Arc::new(RuleSet {
        allow: vec![Arc::new(Expression {
            source: format!(r#"cidr("{cidr}").containsIP(source.address)"#),
        })],
        deny: vec![],
        require: vec![],
    }))
}

fn insert_policy_at_level(
    store: &mut Store,
    listener: &ListenerName,
    policy_name: &str,
    for_listener: bool,
    policy: FrontendPolicy,
    port: Option<u16>,
) {
    let listener_name = if for_listener {
        Some(listener.listener_name.clone())
    } else {
        None
    };
    store.insert_policy(TargetedPolicy {
        key: s(policy_name),
        name: None,
        target: PolicyTarget::Gateway(ListenerTarget {
            gateway_name: listener.gateway_name.clone(),
            gateway_namespace: listener.gateway_namespace.clone(),
            listener_name,
            port,
        }),
        policy: PolicyType::Frontend(policy),
    });
}

fn insert_gateway_level_frontend_policy(store: &mut Store, l: &ListenerName, remove_item: &str) {
    let policy = create_access_log_policy(remove_item);
    insert_policy_at_level(store, l, "gw_frontend_policy", false, policy, None);
}

fn insert_listener_level_frontend_policy(store: &mut Store, l: &ListenerName, remove_item: &str) {
    let policy = create_access_log_policy(remove_item);
    insert_policy_at_level(store, l, "listener_frontend_policy", true, policy, None);
}

fn insert_port_level_frontend_policy(
    store: &mut Store,
    l: &ListenerName,
    port: u16,
    remove_item: &str,
) {
    let policy = create_access_log_policy(remove_item);
    insert_policy_at_level(store, l, "port_frontend_policy", false, policy, Some(port));
}

fn removes(policy: &Option<Arc<LoggingPolicy>>, item: &str) -> bool {
    policy
        .as_ref()
        .is_some_and(|p| p.remove.iter().any(|r| r == item))
}

fn http_listener(key: &str, name: &str) -> Listener {
    Listener {
        key: s(key),
        name: ListenerName {
            gateway_name: s("gw"),
            gateway_namespace: s("ns"),
            listener_name: s(name),
            listener_set: None,
        },
        hostname: s("example.com"),
        protocol: ListenerProtocol::HTTP,
    }
}

fn bind(key: &str, port: u16, listeners: Vec<Listener>) -> Bind {
    Bind {
        key: s(key),
        address: SocketAddr::V4 {
            ip: 0x7f000001,
            port,
        },
        protocol: BindProtocol::http,
        tunnel_protocol: TunnelProtocol::Direct,
        listeners: ListenerSet::from_list(listeners),
    }
}

fn plain_route(key: &str, name: &str) -> Route {
    Route {
        key: s(key),
        service_key: None,
        name: route_name(name, "ns", None),
        hostnames: vec![],
        matches: vec![],
        inline_policies: vec![],
        backends: vec![],
    }
}

fn plain_tcp_route(key: &str, service_key: Option<NamespacedHostname>) -> TCPRoute {
    TCPRoute {
        key: s(key),
        service_key,
        name: route_name(key, "ns", None),
        hostnames: vec![],
        backends: vec![],
    }
}

fn opaque(name: &str, port: u16) -> BackendWithPolicies {
    BackendWithPolicies {
        backend: Backend::Opaque(
            ResourceName::new(s(name), s("")),
            Target {
                host: s("example.com"),
                port,
            },
        ),
        inline_policies: vec![],
    }
}

fn body() -> Arc<PolicyBody> {
    Arc::new(PolicyBody {
        document: Json::Null,
        expressions: vec![],
    })
}

// ------------------------------------------------------------------------------------------
// Scenarios
// ------------------------------------------------------------------------------------------

#[test]
fn dump_includes_listener_routes() {
    let mut updater = StoreUpdater::new(Store::with_ipv6_enabled(true));
    let bind = bind("bind", 0, vec![http_listener("listener", "listener")]);
    let route = plain_route("route", "route");
    {
        let store = updater.write();
        store.insert_bind(bind);
        store.insert_route(route, s("listener"));
    }

    let dump = updater.dump();
    assert_eq!(dump.binds.len(), 1);
    let listener = dump.binds[0]
        .listeners
        .get("listener")
        .expect("listener dump entry");
    assert!(listener
        .routes
        .as_ref()
        .is_some_and(|routes| routes.contains("route")));
}

#[test]
fn delegated_child_dispatches_to_group_and_inherits_service_policies() {
    let mut updater = StoreUpdater::new(Store::with_ipv6_enabled(true));
    let listener = listener();
    let svc = NamespacedHostname {
        namespace: s("ns"),
        hostname: s("svc-a.ns.svc.cluster.local"),
    };
    let rgk = s("ns/svc-a-children");

    let svc_timeout = timeout(7);
    let child = Route {
        key: s("child-route"),
        service_key: Some(svc.copy()),
        name: route_name("child", "ns", Some("HTTPRoute")),
        hostnames: vec![],
        matches: vec![],
        inline_policies: vec![],
        backends: vec![],
    };
    {
        let store = updater.write();
        store.insert_policy(TargetedPolicy {
            key: s("svc-a-timeout"),
            name: None,
            target: PolicyTarget::Backend(BackendTarget::Service {
                hostname: svc.hostname.clone(),
                namespace: svc.namespace.clone(),
                port: None,
            }),
            policy: PolicyType::Traffic(
                TrafficPolicy::Timeout(svc_timeout.clone()),
                PolicyPhase::Route,
            ),
        });
        store.insert_xds_route(child, String::new(), Some(rgk.clone()));
    }

    let store = updater.read();
    let group = store
        .lookup_route_group(&rgk)
        .expect("route should be in the route group");
    let in_group = group
        .get("child-route")
        .expect("delegated child should be in the group");
    assert!(
        store.get_service_routes(&svc).is_none(),
        "route with route_group_key must not also live in service-keyed routes",
    );

    let pols = store.route_policies(
        &RoutePath {
            listener: &listener,
            service: in_group.service_key.as_ref(),
            routes: vec![&in_group.name],
        },
        &[],
    );
    assert_eq!(
        pols.timeout,
        Some(svc_timeout),
        "Service-targeted policy on svc-a must apply when traffic reaches the delegated child",
    );
}

#[test]
fn route_policies_are_kind_scoped() {
    let mut store = Store::default();
    let listener = listener();

    let http_route = route_name("r", "ns", Some("HTTPRoute"));
    let grpc_route = route_name("r", "ns", Some("GRPCRoute"));

    let http_timeout = insert_route_timeout_policy(
        &mut store,
        "p-http",
        route_name("r", "ns", Some("HTTPRoute")),
        1,
    );
    let grpc_timeout = insert_route_timeout_policy(
        &mut store,
        "p-grpc",
        route_name("r", "ns", Some("GRPCRoute")),
        2,
    );

    let http_pols = store.route_policies(
        &RoutePath {
            listener: &listener,
            service: None,
            routes: vec![&http_route],
        },
        &[],
    );
    assert_eq!(http_pols.timeout, Some(http_timeout));

    let grpc_pols = store.route_policies(
        &RoutePath {
            listener: &listener,
            service: None,
            routes: vec![&grpc_route],
        },
        &[],
    );
    assert_eq!(grpc_pols.timeout, Some(grpc_timeout));
}

#[test]
fn route_policies_give_precedence_to_later_routes_in_path() {
    let mut store = Store::default();
    let listener = listener();
    let parent_route = route_name("parent", "ns", Some("HTTPRoute"));
    let child_route = route_name("child", "ns", Some("HTTPRoute"));

    let parent_timeout = insert_route_timeout_policy(
        &mut store,
        "p-parent",
        route_name("parent", "ns", Some("HTTPRoute")),
        1,
    );
    let child_timeout = insert_route_timeout_policy(
        &mut store,
        "p-child",
        route_name("child", "ns", Some("HTTPRoute")),
        2,
    );

    let pols = store.route_policies(
        &RoutePath {
            listener: &listener,
            service: None,
            routes: vec![&parent_route, &child_route],
        },
        &[],
    );

    assert_ne!(parent_timeout, child_timeout);
    assert_eq!(pols.timeout, Some(child_timeout));
}

/// Frontend policies at listener level take precedence over gateway level policies.
#[test]
fn frontend_policy_listener_precedence() {
    let mut store = Store::default();
    let listener = listener();

    insert_gateway_level_frontend_policy(&mut store, &listener, "gw_remove");
    insert_listener_level_frontend_policy(&mut store, &listener, "listener_remove");

    let merged_pols = store.listener_frontend_policies(&listener, None, None);
    assert!(
        merged_pols.access_log.is_some(),
        "Expected access log policy to be present"
    );
    assert!(
        removes(&merged_pols.access_log, "listener_remove"),
        "Expected listener policy to take precedence for remove field"
    );
    assert!(
        !removes(&merged_pols.access_log, "gw_remove"),
        "Gateway policy should not override listener policy"
    );
}

#[test]
fn frontend_policy_gateway_port_inherits_gateway_level() {
    let mut store = Store::default();
    let listener = listener();

    insert_gateway_level_frontend_policy(&mut store, &listener, "gw_remove");

    let access_log = store
        .frontend_policies(PolicyTargetRef::Gateway {
            gateway_name: listener.gateway_name.as_ref(),
            gateway_namespace: listener.gateway_namespace.as_ref(),
            listener_name: None,
            port: Some(15008),
        })
        .access_log
        .expect("expected gateway policy to apply");

    assert!(access_log.remove.iter().any(|r| r == "gw_remove"));
}

/// The value of `cidr("<network>/<bits>").containsIP(source.address)`.
fn contains_ip(expression: &str, address: [u8; 4]) -> bool {
    let cidr = expression.split('"').nth(1).expect("a network");
    let (network, bits) = cidr.split_once('/').expect("a prefix length");
    let octets: Vec<u32> = network.split('.').map(|o| o.parse().unwrap()).collect();
    let network = (octets[0] << 24) | (octets[1] << 16) | (octets[2] << 8) | octets[3];
    let mask = u32::MAX << (32 - bits.parse::<u32>().unwrap());
    u32::from_be_bytes(address) & mask == network & mask
}

fn admitted(set: &NetworkAuthorizationSet, address: [u8; 4]) -> bool {
    let outcomes = set
        .rule_sets
        .iter()
        .map(|r| RuleOutcome {
            allowed: r.allow.iter().any(|e| contains_ip(&e.source, address)),
            denied: r.deny.iter().any(|e| contains_ip(&e.source, address)),
            required: r.require.iter().all(|e| contains_ip(&e.source, address)),
        })
        .collect();
    set.decide(&outcomes)
}

#[test]
fn frontend_network_authorization_policies_merge() {
    let mut store = Store::default();
    let listener = listener();
    insert_policy_at_level(
        &mut store,
        &listener,
        "gw-frontend-network-authz-1",
        false,
        create_network_authorization_policy("10.0.0.0/8"),
        None,
    );
    insert_policy_at_level(
        &mut store,
        &listener,
        "gw-frontend-network-authz-2",
        false,
        create_network_authorization_policy("192.168.0.0/16"),
        None,
    );

    let merged_pols = store.frontend_policies(listener.as_gateway_target_ref());
    let network_authz = merged_pols
        .network_authorization
        .as_ref()
        .expect("expected merged network authorization");

    assert!(admitted(network_authz, [10, 1, 2, 3]));
    assert!(admitted(network_authz, [192, 168, 1, 2]));
    assert!(!admitted(network_authz, [172, 16, 0, 1]));
}

#[test]
fn frontend_policy_port_precedence() {
    let mut store = Store::default();
    let listener = listener();

    insert_gateway_level_frontend_policy(&mut store, &listener, "gw_remove");
    insert_port_level_frontend_policy(&mut store, &listener, 15008, "port_remove");
    insert_listener_level_frontend_policy(&mut store, &listener, "listener_remove");

    let merged_pols = store.listener_frontend_policies(&listener, Some(15008), None);
    assert!(removes(&merged_pols.access_log, "listener_remove"));
    assert!(!removes(&merged_pols.access_log, "port_remove"));
    assert!(!removes(&merged_pols.access_log, "gw_remove"));

    let merged_pols = store.listener_frontend_policies(&listener, Some(15009), None);
    assert!(removes(&merged_pols.access_log, "listener_remove"));

    let listener_without_listener_policy = ListenerName {
        gateway_name: listener.gateway_name.clone(),
        gateway_namespace: listener.gateway_namespace.clone(),
        listener_name: s("other"),
        listener_set: None,
    };
    let merged_pols =
        store.listener_frontend_policies(&listener_without_listener_policy, Some(15008), None);
    assert!(removes(&merged_pols.access_log, "port_remove"));
    assert!(!removes(&merged_pols.access_log, "gw_remove"));
}

#[test]
fn gateway_target_cannot_mix_listener_and_port() {
    let target = ListenerTarget {
        gateway_name: s("gw"),
        gateway_namespace: s("ns"),
        listener_name: Some(s("listener")),
        port: Some(15008),
    };

    assert!(target.validate().is_err());
}

#[test]
fn xds_bind_uses_ipv4_when_ipv6_disabled() {
    let bind = Bind::from_xds(
        s("test-bind"),
        8080,
        BindProtocol::http,
        TunnelProtocol::Direct,
        false,
    );
    assert_eq!(bind.address.port(), 8080);
    assert_eq!(bind.address, SocketAddr::V4 { ip: 0, port: 8080 });
}

#[test]
fn xds_bind_uses_ipv6_when_ipv6_enabled_on_unix() {
    let bind = Bind::from_xds(
        s("test-bind"),
        9090,
        BindProtocol::http,
        TunnelProtocol::Direct,
        true,
    );
    assert_eq!(bind.address.port(), 9090);
    assert_eq!(
        bind.address,
        SocketAddr::V6 {
            ip: 0,
            port: 9090,
            flowinfo: 0,
            scope_id: 0
        }
    );
}

fn sets_foo(value: &str) -> BackendTrafficPolicy {
    BackendTrafficPolicy::RequestHeaderModifier(Arc::new(HeaderModifier {
        add: vec![],
        set: vec![(s("x-foo"), s(value))],
        remove: vec![],
    }))
}

fn backend_policy(key: &str, section: Option<&str>, policy: BackendTrafficPolicy) -> TargetedPolicy {
    TargetedPolicy {
        key: s(key),
        name: None,
        target: PolicyTarget::Backend(BackendTarget::Backend {
            name: s("test-backend"),
            namespace: s("test-ns"),
            section: section.map(s),
        }),
        policy: PolicyType::Backend(policy),
    }
}

/// Inline policies come before attached ones, and those of a section before those of its backend.
#[test]
fn backend_policy_merging_precedence() {
    let mut store = Store::default();
    store.insert_policy(backend_policy(
        "backend-attached-policy",
        None,
        sets_foo("bar"),
    ));
    store.insert_policy(backend_policy(
        "section-policy",
        Some("target"),
        sets_foo("bar3"),
    ));
    let backend_inline_policies = vec![sets_foo("bar2")];

    let whole = BackendTargetRef::Backend {
        name: "test-backend",
        namespace: "test-ns",
        section: None,
    };
    let section = BackendTargetRef::Backend {
        name: "test-backend",
        namespace: "test-ns",
        section: Some("target"),
    };

    // Inline policy beats backend attached policy
    let policies = store.backend_policies(whole, &[&backend_inline_policies[..]], None);
    let modifier = policies.request_header_modifier.expect("a modifier");
    assert_eq!(modifier.set.len(), 1);
    assert_eq!(modifier.set[0], (s("x-foo"), s("bar2")));

    // Inline policy beats section attached policy
    let policies = store.backend_policies(section, &[&backend_inline_policies[..]], None);
    let modifier = policies.request_header_modifier.expect("a modifier");
    assert_eq!(modifier.set.len(), 1);
    assert_eq!(modifier.set[0], (s("x-foo"), s("bar2")));

    // Without inline policies, backend attached policy is used
    let policies = store.backend_policies(whole, &[], None);
    let modifier = policies.request_header_modifier.expect("a modifier");
    assert_eq!(modifier.set.len(), 1);
    assert_eq!(modifier.set[0], (s("x-foo"), s("bar")));

    // Without inline policies, section attached policy beats backend attached
    let policies = store.backend_policies(section, &[], None);
    let modifier = policies.request_header_modifier.expect("a modifier");
    assert_eq!(modifier.set.len(), 1);
    assert_eq!(modifier.set[0], (s("x-foo"), s("bar3")));
}

fn in_listener_set(listener_name: &str) -> ListenerName {
    ListenerName {
        gateway_name: s("gw"),
        gateway_namespace: s("ns"),
        listener_name: s(listener_name),
        listener_set: Some(ResourceName::new(s("my-ls"), s("default"))),
    }
}

#[test]
fn listenerset_targeted_policy_is_found_via_listener_frontend_policies() {
    let mut store = Store::default();
    store.insert_policy(TargetedPolicy {
        key: s("ls-policy"),
        name: None,
        target: PolicyTarget::ListenerSet(ListenerSetTarget {
            name: s("my-ls"),
            namespace: s("default"),
            section: None,
        }),
        policy: PolicyType::Frontend(create_access_log_policy("ls_remove")),
    });

    let pols = store.listener_frontend_policies(&in_listener_set("listener"), None, None);
    assert!(
        removes(&pols.access_log, "ls_remove"),
        "ListenerSet-targeted policy should be found via listener_frontend_policies"
    );
}

#[test]
fn listenerset_section_targeted_policy_applies_only_to_named_listener() {
    let mut store = Store::default();
    store.insert_policy(TargetedPolicy {
        key: s("ls-section-policy"),
        name: None,
        target: PolicyTarget::ListenerSet(ListenerSetTarget {
            name: s("my-ls"),
            namespace: s("default"),
            section: Some(s("listener-a")),
        }),
        policy: PolicyType::Frontend(create_access_log_policy("section_remove")),
    });

    let pols_a = store.listener_frontend_policies(&in_listener_set("listener-a"), None, None);
    assert!(
        removes(&pols_a.access_log, "section_remove"),
        "section-targeted policy should apply to the named listener"
    );

    let pols_b = store.listener_frontend_policies(&in_listener_set("listener-b"), None, None);
    assert!(
        pols_b.access_log.is_none(),
        "section-targeted policy should NOT apply to a different listener in the same set"
    );
}

// ------------------------------------------------------------------------------------------
// Binds and listeners
// ------------------------------------------------------------------------------------------

#[test]
fn a_bind_is_found_by_address() {
    let mut store = Store::with_ipv6_enabled(true);
    store.insert_bind(bind("exact", 80, vec![]));
    store.insert_bind(Bind::from_xds(
        s("any"),
        90,
        BindProtocol::tcp,
        TunnelProtocol::Direct,
        true,
    ));

    let exact = SocketAddr::V4 {
        ip: 0x7f000001,
        port: 80,
    };
    assert_eq!(store.find_bind(exact).map(|b| b.key.clone()), Some(s("exact")));
    let other_host = SocketAddr::V4 {
        ip: 0x0a000001,
        port: 80,
    };
    assert!(store.find_bind(other_host).is_none());
    let at_any = SocketAddr::V4 {
        ip: 0x0a000001,
        port: 90,
    };
    assert_eq!(store.find_bind(at_any).map(|b| b.key.clone()), Some(s("any")));
}

#[test]
fn listeners_may_come_before_their_bind() {
    let mut store = Store::with_ipv6_enabled(true);
    store.insert_listener(http_listener("bind/l", "l"), s("bind"));
    assert!(store.bind(&s("bind")).is_none());
    store.insert_bind(bind("bind", 80, vec![]));
    let found = store.get_bind_listener(&s("bind"), &s("bind/l"));
    assert_eq!(found.map(|l| l.hostname.clone()), Some(s("example.com")));

    store.remove_listener(s("bind/l"));
    assert!(store.get_bind_listener(&s("bind"), &s("bind/l")).is_none());
    assert!(store.bind(&s("bind")).is_some());
}

#[test]
fn a_bind_replaces_the_old_one_with_its_listeners() {
    let mut store = Store::with_ipv6_enabled(true);
    store.insert_bind(bind("bind", 80, vec![http_listener("a", "a")]));
    store.insert_bind(bind("bind", 80, vec![http_listener("b", "b")]));
    let found = store.bind(&s("bind")).expect("the bind");
    assert!(!found.listeners.contains("a"));
    assert!(found.listeners.contains("b"));
}

#[test]
fn a_bind_of_a_control_plane_keeps_the_old_listeners() {
    let mut store = Store::with_ipv6_enabled(true);
    store.insert_bind(bind("bind", 80, vec![http_listener("a", "a")]));
    store.insert_xds_bind(XdsBind {
        key: s("bind"),
        port: 81,
        protocol: BindProtocol::tls,
        tunnel_protocol: TunnelProtocol::Direct,
    });
    let found = store.bind(&s("bind")).expect("the bind");
    assert!(found.listeners.contains("a"));
    assert_eq!(found.address.port(), 81);
}

#[test]
fn changed_and_removed_listeners_are_announced() {
    let mut store = Store::with_ipv6_enabled(true);
    store.insert_bind(bind("bind", 80, vec![]));
    let before = store.subscribe_listener_changes();

    store.insert_listener(http_listener("bind/l", "l"), s("bind"));
    assert_eq!(store.subscribe_listener_changes(), before);

    let mut changed = http_listener("bind/l", "l");
    changed.hostname = s("other.example.com");
    store.insert_listener(changed, s("bind"));
    let after = store.subscribe_listener_changes();
    assert_ne!(after, before);

    store.remove_listener(s("bind/l"));
    assert_ne!(store.subscribe_listener_changes(), after);
}

#[test]
fn events_tell_of_binds() {
    let mut store = Store::with_ipv6_enabled(true);
    assert!(!store.is_subscribed());
    store.subscribe();
    assert!(store.is_subscribed());
    store.insert_bind(bind("bind", 80, vec![]));
    store.remove_bind(s("bind"));

    let events = store.take_events();
    assert_eq!(events.len(), 2);
    match &events[0] {
        BindEvent::Add(b, BindListeners::Single(address)) => {
            assert_eq!(b.key, "bind");
            assert_eq!(address.port(), 80);
        }
        other => panic!("unexpected event {other:?}"),
    }
    match &events[1] {
        BindEvent::Remove(key) => assert_eq!(key, "bind"),
        other => panic!("unexpected event {other:?}"),
    }
    assert!(store.take_events().is_empty());
}

#[test]
fn a_store_per_core_serves_from_each_core() {
    let mut store = Store::with_cores(true, Some(vec![3, 5]));
    store.subscribe();
    store.insert_bind(bind("bind", 80, vec![]));
    match &store.take_events()[0] {
        BindEvent::Add(_, BindListeners::PerCore(_, cores)) => assert_eq!(*cores, vec![3, 5]),
        other => panic!("unexpected event {other:?}"),
    }
}

#[test]
fn the_cores_of_the_machine_are_distinct() {
    let mut store = Store::new(true, ThreadingMode::ThreadPerCore);
    store.subscribe();
    store.insert_bind(bind("bind", 80, vec![]));
    match &store.take_events()[0] {
        BindEvent::Add(_, BindListeners::PerCore(_, cores)) => {
            let mut seen = cores.clone();
            seen.sort();
            seen.dedup();
            assert_eq!(seen.len(), cores.len());
        }
        other => panic!("unexpected event {other:?}"),
    }

    let mut store = Store::new(true, ThreadingMode::Multithreaded);
    store.subscribe();
    store.insert_bind(bind("bind", 80, vec![]));
    assert!(matches!(
        &store.take_events()[0],
        BindEvent::Add(_, BindListeners::Single(_))
    ));
}

// ------------------------------------------------------------------------------------------
// Routes and backends
// ------------------------------------------------------------------------------------------

#[test]
fn routes_are_found_where_they_were_put() {
    let mut store = Store::with_ipv6_enabled(true);
    let svc = NamespacedHostname {
        namespace: s("ns"),
        hostname: s("svc"),
    };
    store.insert_route(plain_route("a", "a"), s("listener"));
    store.insert_service_route(plain_route("b", "b"), svc.copy());
    store.insert_route_into_group(plain_route("c", "c"), s("group"));
    store.insert_tcp_route(plain_tcp_route("d", None), s("listener"));
    store.insert_service_tcp_route(plain_tcp_route("e", None), svc.copy());

    assert!(store.get_listener_routes(&s("listener")).unwrap().contains("a"));
    assert!(!store.get_listener_routes(&s("listener")).unwrap().contains("b"));
    assert!(store.get_service_routes(&svc).unwrap().contains("b"));
    assert!(store.lookup_route_group(&s("group")).unwrap().contains("c"));
    assert!(store.get_listener_tcp_routes(&s("listener")).unwrap().contains("d"));
    assert!(store.get_service_tcp_routes(&svc).unwrap().contains("e"));

    store.remove_route(s("a"));
    store.remove_tcp_route(s("d"));
    store.remove_route_group(s("group"));
    assert!(store
        .get_listener_routes(&s("listener"))
        .is_none_or(|r| !r.contains("a")));
    assert!(store
        .get_listener_tcp_routes(&s("listener"))
        .is_none_or(|r| !r.contains("d")));
    assert!(store.lookup_route_group(&s("group")).is_none());
    assert!(store.get_service_routes(&svc).unwrap().contains("b"));
}

#[test]
fn a_route_of_the_same_key_replaces_the_old_one() {
    let mut store = Store::with_ipv6_enabled(true);
    store.insert_route(plain_route("a", "old"), s("listener"));
    store.insert_route(plain_route("a", "new"), s("listener"));
    let routes = store.get_listener_routes(&s("listener")).unwrap();
    assert_eq!(routes.get("a").unwrap().name.name, "new");
}

#[test]
fn tokenizers_are_wanted_once_a_backend_needs_them() {
    let mut store = Store::with_ipv6_enabled(true);
    store.insert_backend(s("/plain"), opaque("plain", 80));
    assert!(!store.wants_tokenizers());
    let provider = NamedAIProvider {
        name: s("p"),
        provider: AIProvider::OpenAI { model: None },
        host_override: None,
        path_override: None,
        path_prefix: None,
        tokenize: true,
        inline_policies: vec![],
    };
    store.insert_backend(
        s("/ai"),
        BackendWithPolicies {
            backend: Backend::AI(
                ResourceName::new(s("ai"), s("")),
                AIBackend {
                    providers: vec![vec![(s("p"), provider)]],
                },
            ),
            inline_policies: vec![],
        },
    );
    assert!(store.wants_tokenizers());
    assert!(store.backend(&s("/plain")).is_some());
    store.remove_backend(s("/plain"));
    assert!(store.backend(&s("/plain")).is_none());
    assert!(store.backend(&s("/ai")).is_some());
}

// ------------------------------------------------------------------------------------------
// Policies
// ------------------------------------------------------------------------------------------

#[test]
fn a_removed_policy_no_longer_applies() {
    let mut store = Store::default();
    let listener = listener();
    insert_gateway_level_frontend_policy(&mut store, &listener, "gw_remove");
    assert_eq!(store.all_policies().len(), 1);
    store.remove_policy(s("gw_frontend_policy"));
    assert!(store.all_policies().is_empty());
    let pols = store.listener_frontend_policies(&listener, None, None);
    assert!(pols.access_log.is_none());
}

#[test]
fn a_policy_that_moves_leaves_its_old_target() {
    let mut store = Store::default();
    insert_route_timeout_policy(&mut store, "p", route_name("a", "ns", None), 1);
    let moved = insert_route_timeout_policy(&mut store, "p", route_name("b", "ns", None), 2);
    let listener = listener();
    let a = route_name("a", "ns", None);
    let b = route_name("b", "ns", None);
    let at = |r| {
        store
            .route_policies(
                &RoutePath {
                    listener: &listener,
                    service: None,
                    routes: vec![r],
                },
                &[],
            )
            .timeout
    };
    assert_eq!(at(&a), None);
    assert_eq!(at(&b), Some(moved));
}

#[test]
fn gateway_policies_are_of_the_gateway_phase() {
    let mut store = Store::default();
    let listener = listener();
    let target = || {
        PolicyTarget::Gateway(ListenerTarget {
            gateway_name: s("gw"),
            gateway_namespace: s("ns"),
            listener_name: None,
            port: None,
        })
    };
    store.insert_policy(TargetedPolicy {
        key: s("route-phase"),
        name: None,
        target: target(),
        policy: PolicyType::Traffic(
            TrafficPolicy::BasicAuth(RequestPolicy::Single(body())),
            PolicyPhase::Route,
        ),
    });
    assert!(!store.gateway_policies(&listener).basic_auth.is_set());
    store.insert_policy(TargetedPolicy {
        key: s("gateway-phase"),
        name: None,
        target: target(),
        policy: PolicyType::Traffic(
            TrafficPolicy::APIKey(RequestPolicy::Single(body())),
            PolicyPhase::Gateway,
        ),
    });
    let pols = store.gateway_policies(&listener);
    assert!(pols.api_key.is_set());
    assert!(!pols.basic_auth.is_set());
    assert_eq!(pols.iter().len(), 7);
}

#[test]
fn an_access_log_is_listed_once() {
    let mut store = Store::default();
    let listener = listener();
    let shared = Arc::new(AccessLogPolicy { config: body() });
    let log = |policy: &Arc<AccessLogPolicy>| {
        FrontendPolicy::AccessLog(Arc::new(LoggingPolicy {
            filter: None,
            add: Arc::new(vec![]),
            remove: Arc::new(vec![]),
            otlp: None,
            access_log_policy: Some(policy.clone()),
        }))
    };
    store.insert_bind(bind("a", 80, vec![http_listener("a/l", "listener")]));
    store.insert_bind(bind("b", 81, vec![http_listener("b/l", "other")]));
    assert!(store.all_access_log_policies().is_empty());

    insert_policy_at_level(&mut store, &listener, "one", false, log(&shared), None);
    assert_eq!(store.all_access_log_policies().len(), 1);
    let other = Arc::new(AccessLogPolicy { config: body() });
    insert_policy_at_level(&mut store, &listener, "two", true, log(&other), None);
    assert_eq!(store.all_access_log_policies().len(), 2);
    assert_eq!(store.all_shutdown_policies().len(), 2);
}

#[test]
fn a_listener_comes_before_its_gateway() {
    let mut store = Store::default();
    let listener = listener();
    let at = |listener_name: Option<&str>| {
        PolicyTarget::Gateway(ListenerTarget {
            gateway_name: s("gw"),
            gateway_namespace: s("ns"),
            listener_name: listener_name.map(s),
            port: None,
        })
    };
    let of_gateway = body();
    let of_listener = body();
    for (key, target, policy) in [
        ("a", at(None), of_gateway.clone()),
        ("b", at(Some("listener")), of_listener.clone()),
    ] {
        store.insert_policy(TargetedPolicy {
            key: s(key),
            name: None,
            target,
            policy: PolicyType::Traffic(
                TrafficPolicy::APIKey(RequestPolicy::Single(policy)),
                PolicyPhase::Gateway,
            ),
        });
    }
    match store.gateway_policies(&listener).api_key {
        RequestPolicy::Single(p) => assert!(Arc::ptr_eq(&p, &of_listener)),
        other => panic!("unexpected policy {other:?}"),
    }
    store.remove_policy(s("b"));
    match store.gateway_policies(&listener).api_key {
        RequestPolicy::Single(p) => assert!(Arc::ptr_eq(&p, &of_gateway)),
        other => panic!("unexpected policy {other:?}"),
    }
}

#[test]
fn authorization_of_all_levels_counts() {
    let mut store = Store::default();
    let listener = listener();
    let rules = || {
        Arc::new(RuleSet {
            allow: vec![],
            deny: vec![],
            require: vec![],
        })
    };
    for (key, target) in [
        ("a", PolicyTarget::Route(route_name("r", "ns", None))),
        (
            "b",
            PolicyTarget::Gateway(ListenerTarget {
                gateway_name: s("gw"),
                gateway_namespace: s("ns"),
                listener_name: None,
                port: None,
            }),
        ),
    ] {
        store.insert_policy(TargetedPolicy {
            key: s(key),
            name: None,
            target,
            policy: PolicyType::Traffic(TrafficPolicy::Authorization(rules()), PolicyPhase::Route),
        });
    }
    let mut route = route_name("r", "ns", None);
    route.rule_name = Some(s("rule"));
    let path = RoutePath {
        listener: &listener,
        service: None,
        routes: vec![&route],
    };
    assert_eq!(path.final_route(), Some(&route));
    let inline = vec![TrafficPolicy::Authorization(rules())];
    match store.route_policies(&path, &[&inline[..]]).authorization {
        RequestPolicy::Single(set) => assert_eq!(set.rule_sets.len(), 3),
        other => panic!("unexpected policy {other:?}"),
    }
    let nowhere = RoutePath {
        listener: &listener,
        service: None,
        routes: vec![],
    };
    assert_eq!(nowhere.final_route(), None);
}

#[test]
fn sections_of_a_backend_have_policies_of_their_own() {
    let mut store = Store::default();
    store.insert_policy(backend_policy("whole", None, sets_foo("whole")));
    store.insert_policy(backend_policy("section", Some("target"), sets_foo("section")));
    let section = BackendTargetRef::Backend {
        name: "test-backend",
        namespace: "test-ns",
        section: Some("target"),
    };
    let own = store.sub_backend_policies(section, None);
    assert_eq!(own.request_header_modifier.unwrap().set[0].1, "section");
    let other = BackendTargetRef::Backend {
        name: "test-backend",
        namespace: "test-ns",
        section: Some("other"),
    };
    assert!(store
        .sub_backend_policies(other, None)
        .request_header_modifier
        .is_none());
    let inline = store.inline_backend_policies(&[sets_foo("inline"), sets_foo("later")]);
    let merged = store.backend_policies(section, &[], None).merge(inline);
    assert_eq!(merged.request_header_modifier.unwrap().set[0].1, "inline");
}

#[test]
fn a_policy_that_is_listed_twice_counts_once() {
    let mut store = Store::default();
    let listener = listener();
    let route = route_name("r", "ns", None);
    store.insert_policy(TargetedPolicy {
        key: s("mcp"),
        name: None,
        target: PolicyTarget::Route(route_name("r", "ns", None)),
        policy: PolicyType::Backend(BackendTrafficPolicy::McpAuthorization(Arc::new(RuleSet {
            allow: vec![],
            deny: vec![],
            require: vec![],
        }))),
    });
    let whole = BackendTargetRef::Backend {
        name: "test-backend",
        namespace: "test-ns",
        section: None,
    };
    let pols = store.backend_policies(
        whole,
        &[],
        Some(RoutePath {
            listener: &listener,
            service: None,
            routes: vec![&route],
        }),
    );
    assert_eq!(pols.mcp_authorization.expect("rules").rule_sets.len(), 1);
}

#[test]
fn a_backend_without_a_picker_has_an_idle_router() {
    let store = Store::default();
    let none = store.inline_backend_policies(&[]);
    assert!(none.build_inference().ext_proc.is_none());
    let picker = InferenceRouting::from_config(
        Arc::new(SimpleBackendReference::Backend(s("/epp"))),
        InferenceRoutingDestinationMode::Validated,
    );
    let some = store
        .inline_backend_policies(&[BackendTrafficPolicy::InferenceRouting(Arc::new(picker))]);
    assert!(some.build_inference().ext_proc.is_some());
}

fn llm_policy(alias: Option<&str>, guard: Option<Arc<PolicyBody>>) -> Arc<llm::Policy> {
    let mut p = llm::Policy::empty();
    p.prompt_guard = guard;
    p.model_aliases = Arc::new(alias.map(|a| (s(a), s("model"))).into_iter().collect());
    Arc::new(p)
}

#[test]
fn model_policies_of_a_backend_come_first() {
    let guard = body();
    let route = LLMRequestPolicies {
        local_rate_limit: None,
        remote_rate_limit: Some(body()),
        llm: Some(llm_policy(Some("route"), Some(guard.clone()))),
    };
    let merged = route.merge_backend_policies(Some(llm_policy(Some("backend"), None)));
    assert!(merged.remote_rate_limit.is_some());
    let llm = merged.llm.expect("a model policy");
    assert_eq!(llm.model_aliases.len(), 1);
    assert_eq!(llm.model_aliases[0].0, "backend");
    assert!(llm
        .prompt_guard
        .as_ref()
        .is_some_and(|g| Arc::ptr_eq(g, &guard)));

    let route = LLMRequestPolicies {
        local_rate_limit: None,
        remote_rate_limit: None,
        llm: Some(llm_policy(Some("route"), None)),
    };
    let merged = route.merge_backend_policies(Some(llm_policy(None, None)));
    assert_eq!(merged.llm.unwrap().model_aliases[0].0, "route");
}

#[test]
fn expressions_of_policies_are_registered() {
    let mut ctx = ContextBuilder::new();
    let e = |source: &str| {
        Arc::new(Expression {
            source: s(source),
        })
    };
    let mut frontend = FrontendPolices::empty();
    frontend.set_if_empty(&FrontendPolicy::AccessLog(Arc::new(LoggingPolicy {
        filter: Some(e("filter")),
        add: Arc::new(vec![(s("f"), e("field"))]),
        remove: Arc::new(vec![]),
        otlp: None,
        access_log_policy: None,
    })));
    frontend.register_cel_expressions(&mut ctx);
    assert!(ctx.expressions.is_empty());
    let sources: Vec<&str> = ctx
        .log_expressions
        .iter()
        .map(|x| x.source.as_str())
        .collect();
    assert_eq!(sources, vec!["filter", "field"]);

    let conditional = TrafficPolicy::ExtAuthz(RequestPolicy::from_policies(vec![
        ConditionalEntry {
            policy: Arc::new(PolicyBody {
                document: Json::Null,
                expressions: vec![e("inner")],
            }),
            condition: Some(e("when")),
        },
    ]));
    let store = Store::default();
    let listener = listener();
    let route = route_name("r", "ns", None);
    let inline = vec![conditional];
    let pols = store.route_policies(
        &RoutePath {
            listener: &listener,
            service: None,
            routes: vec![&route],
        },
        &[&inline[..]],
    );
    let mut ctx = ContextBuilder::new();
    pols.register_cel_expressions(&mut ctx);
    let mut sources: Vec<&str> = ctx.expressions.iter().map(|x| x.source.as_str()).collect();
    sources.sort();
    assert_eq!(sources, vec!["inner", "when"]);
}

#[test]
fn targets_of_routes_are_told_apart() {
    let listener = RouteTarget::Listener(s("a"));
    let group = RouteTarget::RouteGroup(s("a"));
    assert!(RouteTargetRef::from_target(&listener).equivalent(&listener));
    assert!(!RouteTargetRef::from_target(&listener).equivalent(&group));
    assert_ne!(
        RouteTargetRef::from_target(&listener).key(),
        RouteTargetRef::from_target(&group).key()
    );
}

// ------------------------------------------------------------------------------------------
// Dumps, syncs and updates
// ------------------------------------------------------------------------------------------

#[test]
fn a_dump_is_sorted() {
    let mut store = Store::with_ipv6_enabled(true);
    for key in ["c", "a", "b"] {
        store.insert_bind(bind(key, 80, vec![]));
        store.insert_backend(format!("/{key}"), opaque(key, 80));
        insert_route_timeout_policy(&mut store, key, route_name(key, "ns", None), 1);
    }
    let dump = store.dump();
    let binds: Vec<&str> = dump.binds.iter().map(|b| b.bind.key.as_str()).collect();
    assert_eq!(binds, vec!["a", "b", "c"]);
    let policies: Vec<&str> = dump.policies.iter().map(|p| p.key.as_str()).collect();
    assert_eq!(policies, vec!["a", "b", "c"]);
    let backends: Vec<String> = dump.backends.iter().map(|b| b.backend.name()).collect();
    assert_eq!(backends, vec![s("/a"), s("/b"), s("/c")]);
}

#[test]
fn what_a_sync_no_longer_holds_is_removed() {
    let mut updater = StoreUpdater::new(Store::with_ipv6_enabled(true));
    let prev = updater.sync_local(
        vec![bind("one", 80, vec![]), bind("two", 81, vec![])],
        vec![(s("l"), vec![plain_route("r1", "r1"), plain_route("r2", "r2")])],
        vec![(s("l"), vec![plain_tcp_route("t1", None)])],
        vec![],
        vec![opaque("b1", 80)],
        vec![(s("g"), vec![plain_route("gr", "gr")])],
        PreviousState::default(),
    );
    let prev = updater.sync_local(
        vec![bind("two", 81, vec![])],
        vec![(s("l"), vec![plain_route("r2", "r2")])],
        vec![],
        vec![],
        vec![opaque("b2", 80)],
        vec![],
        prev,
    );
    let store = updater.read();
    assert!(store.bind(&s("one")).is_none());
    assert!(store.bind(&s("two")).is_some());
    let routes = store.get_listener_routes(&s("l")).unwrap();
    assert!(!routes.contains("r1"));
    assert!(routes.contains("r2"));
    assert!(store
        .get_listener_tcp_routes(&s("l"))
        .is_none_or(|r| !r.contains("t1")));
    assert!(store.backend(&s("/b1")).is_none());
    assert!(store.backend(&s("/b2")).is_some());
    assert!(store.lookup_route_group(&s("g")).is_none());
    assert!(prev.binds.contains("two"));
    assert!(!prev.binds.contains("one"));
}

#[test]
fn a_sync_leaves_what_it_did_not_add() {
    let mut updater = StoreUpdater::new(Store::with_ipv6_enabled(true));
    updater.write().insert_bind(bind("other", 90, vec![]));
    let prev = updater.sync_local(
        vec![bind("one", 80, vec![])],
        vec![],
        vec![],
        vec![],
        vec![],
        vec![],
        PreviousState::default(),
    );
    updater.sync_local(vec![], vec![], vec![], vec![], vec![], vec![], prev);
    assert!(updater.read().bind(&s("one")).is_none());
    assert!(updater.read().bind(&s("other")).is_some());
}

#[test]
fn an_empty_sync_undoes_the_one_before() {
    let mut updater = StoreUpdater::new(Store::with_ipv6_enabled(true));
    updater.write().insert_bind(bind("other", 90, vec![]));
    updater.write().insert_route(plain_route("kept", "kept"), s("l"));
    let prev = updater.sync_local(
        vec![bind("one", 80, vec![]), bind("one", 81, vec![])],
        vec![
            (s("l"), vec![plain_route("r1", "r1")]),
            (s("m"), vec![plain_route("r2", "r2")]),
        ],
        vec![(s("l"), vec![plain_tcp_route("t1", None)])],
        vec![],
        vec![opaque("b1", 80)],
        vec![(s("g"), vec![plain_route("r1", "r1"), plain_route("gr", "gr")])],
        PreviousState::default(),
    );
    assert!(updater.read().lookup_route_group(&s("g")).is_some());
    let prev = updater.sync_local(vec![], vec![], vec![], vec![], vec![], vec![], prev);
    let store = updater.read();
    assert!(store.bind(&s("one")).is_none());
    assert!(store.bind(&s("other")).is_some());
    let routes = store.get_listener_routes(&s("l")).expect("routes");
    assert!(routes.contains("kept"));
    assert!(!routes.contains("r1"));
    assert!(store.get_listener_routes(&s("m")).is_none());
    assert!(store.get_listener_tcp_routes(&s("l")).is_none());
    assert!(store.lookup_route_group(&s("g")).is_none());
    assert!(store.backend(&s("/b1")).is_none());
    assert!(store.all_policies().is_empty());
    assert!(!prev.binds.contains("one"));
    assert!(!prev.routes.contains("r1"));
    assert!(!prev.route_groups.contains("g"));
}

#[test]
fn updates_add_and_remove_resources() {
    let mut updater = StoreUpdater::new(Store::with_ipv6_enabled(false));
    let r = updater.handle(vec![XdsUpdate::Update {
        name: s("res"),
        resource: XdsResource::Bind {
            key: s("bind"),
            decoded: Ok(XdsBind {
                key: s("bind"),
                port: 80,
                protocol: BindProtocol::tls,
                tunnel_protocol: TunnelProtocol::Direct,
            }),
        },
        warnings: vec![],
    }]);
    assert!(r.is_ok());
    let found = updater.read().bind(&s("bind")).expect("the bind");
    assert_eq!(found.address, SocketAddr::V4 { ip: 0, port: 80 });
    assert_eq!(found.protocol, BindProtocol::tls);

    assert!(updater.handle(vec![XdsUpdate::Remove(s("res"))]).is_ok());
    assert!(updater.read().bind(&s("bind")).is_none());
}

#[test]
fn a_refused_update_does_not_stop_the_others() {
    let mut updater = StoreUpdater::new(Store::with_ipv6_enabled(true));
    let rejects = updater
        .handle(vec![
            XdsUpdate::Update {
                name: s("bad"),
                resource: XdsResource::Backend {
                    key: s("/bad"),
                    decoded: Err(s("no such kind")),
                },
                warnings: vec![],
            },
            XdsUpdate::Update {
                name: s("good"),
                resource: XdsResource::Backend {
                    key: s("/good"),
                    decoded: Ok(opaque("good", 80)),
                },
                warnings: vec![s("a field is unknown")],
            },
        ])
        .unwrap_err();
    assert_eq!(rejects.len(), 2);
    assert_eq!(rejects[0].name, "bad");
    assert_eq!(rejects[0].message, "no such kind");
    assert!(!rejects[0].warning);
    assert_eq!(rejects[1].name, "good");
    assert!(rejects[1].warning);
    assert!(updater.read().backend(&s("/good")).is_some());
    assert!(updater.read().backend(&s("/bad")).is_none());
}

#[test]
fn a_bind_that_cannot_be_decoded_is_refused() {
    let mut store = Store::with_ipv6_enabled(true);
    let r = store.insert_xds(
        s("res"),
        XdsResource::Bind {
            key: s("bind"),
            decoded: Err(s("port out of range")),
        },
    );
    assert_eq!(r, Err(s("port out of range")));
    assert!(store.bind(&s("bind")).is_none());
}

#[test]
fn an_unknown_resource_is_refused() {
    let mut store = Store::with_ipv6_enabled(true);
    assert!(store.insert_xds(s("res"), XdsResource::Unknown).is_err());
}

#[test]
fn a_noted_resource_is_removed_by_its_name() {
    let mut store = Store::with_ipv6_enabled(true);
    store.insert_route(plain_route("r", "r"), s("l"));
    store.note_resource(s("res"), ResourceKind::Route(s("r")));
    store.remove_resource("other");
    assert!(store.get_listener_routes(&s("l")).unwrap().contains("r"));
    store.remove_resource("res");
    assert!(store
        .get_listener_routes(&s("l"))
        .is_none_or(|r| !r.contains("r")));
}
