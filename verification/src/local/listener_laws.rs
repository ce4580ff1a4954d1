//! Laws of the listeners, binds, policies and groups that a configuration writes, and of the
//! configuration as a whole.

use vstd::prelude::*;

use crate::local::backends::FullLocalBackend;
use crate::local::config::GatewayConfig;
use crate::local::convert::{
    backend_refusals, bind_refusals, binds_converted, group_backends, group_refusals, groups_made,
    keyed_views, named_backends, normalizes, policies_attached, policy_refusals, Converted,
    LocalBind, LocalConfig, LocalPolicy, LocalRouteGroup, NormalizedLocalConfig,
};
use crate::local::error::{first_refusal, gathered, ConfigError};
use crate::local::frontend::{merge_refusal, merged_frontend, LocalFrontendPolicies};
use crate::local::listeners::{
    attached_policies, detected, listed, route_backends, route_refusals, tcp_route_backends,
    tcp_route_refusals, ConvertedListener, LocalListener, LocalListenerProtocol,
};
use crate::local::llm::ConvertedBind;
use crate::local::policies::{
    backend_policies, backend_refusal, inference_refusal, InferenceRoutingScope,
};
use crate::local::routes::{LocalRoute, LocalTCPRoute};
use crate::local::split::{AttachedPolicyContext, FilterOrPolicy};
use crate::text::{decimal, views, Text};
use crate::types::agent::{
    listeners_of, BackendWithPoliciesView, BindProtocol, ListenerProtocolView, ListenerTargetView,
    ListenerView, PolicyTargetView, ResourceNameView, SocketAddr, TCPRouteView, TargetedPolicyView,
};
use crate::types::policy::PolicyIdView;
use crate::types::traffic::{PolicyPhase, PolicyTypeView, TrafficPolicyView};

verus! {

// ---------------------------------------------------------------------------------------------
// Listeners
// ---------------------------------------------------------------------------------------------

/// The listener that is made of a written one has the name that is written or one made from its
/// place, the host name that is written, and the protocol that is written with the TLS settings
/// that were loaded. Its key is made of the gateway, the bind and its name.
pub proof fn listener_has_what_is_written(
    l: LocalListener,
    config: GatewayConfig,
    idx: int,
    bind_key: Text,
    gateway: ListenerTargetView,
)
    requires
        l.refusal(config, idx, bind_key, gateway) is None,
    ensures
        ({
            let made = l.converted(config, idx, bind_key, gateway).listener;
            &&& made.name.gateway_name == gateway.gateway_name
            &&& made.name.gateway_namespace == gateway.gateway_namespace
            &&& made.name.listener_name == (match l.name.name {
                Some(n) => n@,
                None => "listener"@ + decimal(idx as nat),
            })
            &&& made.name.listener_set is None
            &&& made.hostname == (match l.hostname {
                Some(h) => h@,
                None => Seq::empty(),
            })
            &&& made.key == gateway.gateway_namespace + "/"@ + gateway.gateway_name + "/"@
                + bind_key + "/"@ + made.name.listener_name
            &&& match l.protocol {
                LocalListenerProtocol::HTTP => made.protocol is HTTP,
                LocalListenerProtocol::HTTPS => l.tls is Some && l.tls->0 is Ok && made.protocol
                    == ListenerProtocolView::HTTPS((*l.tls->0->Ok_0)@),
                LocalListenerProtocol::TLS => if l.tls is Some {
                    l.tls->0 is Ok && made.protocol == ListenerProtocolView::TLS(
                        Some((*l.tls->0->Ok_0)@),
                    )
                } else {
                    made.protocol == ListenerProtocolView::TLS(None)
                },
                LocalListenerProtocol::TCP => made.protocol is TCP,
                LocalListenerProtocol::HBONE => made.protocol is HBONE,
            }
        }),
{
}

/// The routes of a listener are those that are written, in order, each converted at its place under
/// the key of the listener; a listener without a list has none. The same holds of TCP routes.
pub proof fn listener_has_its_routes(
    l: LocalListener,
    config: GatewayConfig,
    idx: int,
    bind_key: Text,
    gateway: ListenerTargetView,
    i: int,
)
    ensures
        ({
            let c = l.converted(config, idx, bind_key, gateway);
            &&& l.routes is None ==> c.routes.len() == 0
            &&& l.routes is Some ==> c.routes.len() == l.routes->0@.len()
            &&& l.routes is Some && 0 <= i < l.routes->0@.len() ==> c.routes[i]
                == l.routes->0@[i].route(config, i, c.listener.key)
            &&& l.tcp_routes is None ==> c.tcp_routes.len() == 0
            &&& l.tcp_routes is Some ==> c.tcp_routes.len() == l.tcp_routes->0@.len()
            &&& l.tcp_routes is Some && 0 <= i < l.tcp_routes->0@.len() ==> c.tcp_routes[i]
                == l.tcp_routes->0@[i].route(i, c.listener.key)
            &&& c.backends == gathered(
                listed(l.routes),
                |n: int, r: LocalRoute| r.made(config, n, c.listener.key),
            ) + gathered(
                listed(l.tcp_routes),
                |n: int, r: LocalTCPRoute| r.made(n, c.listener.key),
            )
            &&& l.routes is Some ==> listed(l.routes) == l.routes->0@
            &&& l.routes is None ==> listed(l.routes).len() == 0
            &&& l.tcp_routes is Some ==> listed(l.tcp_routes) == l.tcp_routes->0@
            &&& l.tcp_routes is None ==> listed(l.tcp_routes).len() == 0
        }),
{
    let key = l.converted(config, idx, bind_key, gateway).listener.key;
    assert(route_backends(config, key) =~= |n: int, r: LocalRoute| r.made(config, n, key));
    assert(tcp_route_backends(key) =~= |n: int, r: LocalTCPRoute| r.made(n, key));
}

/// The policies of a listener are attached to it, in order, and run before a route is chosen. Their
/// keys are made of the key of the listener and their place.
pub proof fn listener_policies_are_attached_to_it(
    l: LocalListener,
    config: GatewayConfig,
    idx: int,
    bind_key: Text,
    gateway: ListenerTargetView,
    i: int,
)
    ensures
        ({
            let c = l.converted(config, idx, bind_key, gateway);
            let rules: Seq<TrafficPolicyView> = match l.policies {
                Some(p) => FilterOrPolicy::of_gateway(p).route_rules(
                    Some(config.context_of(PolicyIdView::Policy("listener/"@ + c.listener.key))),
                ),
                None => Seq::empty(),
            };
            &&& c.policies.len() == rules.len()
            &&& 0 <= i < rules.len() ==> {
                &&& c.policies[i].key == "listener/"@ + c.listener.key + "/"@ + decimal(i as nat)
                &&& c.policies[i].name is None
                &&& c.policies[i].target == PolicyTargetView::Gateway(
                    ListenerTargetView {
                        gateway_name: gateway.gateway_name,
                        gateway_namespace: gateway.gateway_namespace,
                        listener_name: Some(c.listener.name.listener_name),
                        port: None,
                    },
                )
                &&& c.policies[i].policy == PolicyTypeView::Traffic(rules[i], PolicyPhase::Gateway)
            }
        }),
{
}

/// Attached policies have their keys numbered from the first, and the target and the phase that
/// they are attached with.
pub proof fn attached_policies_are_numbered(
    prefix: Text,
    first: int,
    target: PolicyTargetView,
    rules: Seq<TrafficPolicyView>,
    phase: PolicyPhase,
    i: int,
)
    ensures
        attached_policies(prefix, first, target, rules, phase).len() == rules.len(),
        0 <= i < rules.len() ==> {
            let p = attached_policies(prefix, first, target, rules, phase)[i];
            &&& p.key == prefix + decimal((first + i) as nat)
            &&& p.name is None
            &&& p.target == target
            &&& p.policy == PolicyTypeView::Traffic(rules[i], phase)
        },
{
}

/// A listener is refused for what its protocol lacks, else if it has both kinds of routes, else for
/// the first route that is refused, else for the first TCP route that is, else for its policies.
pub proof fn listeners_are_refused_for_the_first_reason(
    l: LocalListener,
    config: GatewayConfig,
    idx: int,
    bind_key: Text,
    gateway: ListenerTargetView,
)
    ensures
        ({
            let key = l.converted(config, idx, bind_key, gateway).listener.key;
            let lacks = match l.protocol {
                LocalListenerProtocol::HTTP => if l.routes is None {
                    Some("protocol HTTP requires 'routes'"@)
                } else {
                    None
                },
                LocalListenerProtocol::HTTPS => if l.routes is None {
                    Some("protocol HTTPS requires 'routes'"@)
                } else if l.tls is None {
                    Some("HTTPS listener requires 'tls'"@)
                } else if l.tls->0 is Err {
                    Some(l.tls->0->Err_0@)
                } else {
                    None
                },
                LocalListenerProtocol::TLS => if l.tcp_routes is None {
                    Some("protocol TLS requires 'tcpRoutes'"@)
                } else if l.tls is Some && l.tls->0 is Err {
                    Some(l.tls->0->Err_0@)
                } else {
                    None
                },
                LocalListenerProtocol::TCP => if l.tcp_routes is None {
                    Some("protocol TCP requires 'tcpRoutes'"@)
                } else {
                    None
                },
                LocalListenerProtocol::HBONE => None,
            };
            let routes = first_refusal(
                listed(l.routes),
                |n: int, r: LocalRoute| r.refusal(config, n, key),
            );
            let tcp_routes = first_refusal(
                listed(l.tcp_routes),
                |n: int, r: LocalTCPRoute| r.refusal(),
            );
            l.refusal(config, idx, bind_key, gateway) == (if lacks is Some {
                lacks
            } else if l.routes is Some && l.tcp_routes is Some {
                Some("only 'routes' or 'tcpRoutes' may be set"@)
            } else if routes is Some {
                routes
            } else if tcp_routes is Some {
                tcp_routes
            } else {
                match l.policies {
                    Some(p) => FilterOrPolicy::of_gateway(p).refusal(
                        Some(config.context_of(PolicyIdView::Policy("listener/"@ + key))),
                    ),
                    None => None,
                }
            })
        }),
{
    let key = l.converted(config, idx, bind_key, gateway).listener.key;
    assert(route_refusals(config, key) =~= |n: int, r: LocalRoute| r.refusal(config, n, key));
    assert(tcp_route_refusals() =~= |n: int, r: LocalTCPRoute| r.refusal());
}

// ---------------------------------------------------------------------------------------------
// Binds
// ---------------------------------------------------------------------------------------------

/// A bind is served at every address of the host at its port, with the tunnel protocol that is
/// written. It speaks TLS if one of its listeners does, else TCP if one of them does, else HTTP.
pub proof fn bind_has_what_is_written(
    b: LocalBind,
    config: GatewayConfig,
    gateway: ListenerTargetView,
)
    ensures
        ({
            let made = b.made(config, gateway);
            &&& made.key == "bind/"@ + decimal(b.port as nat)
            &&& config.ipv6_enabled ==> made.address == (SocketAddr::V6 {
                ip: 0,
                port: b.port,
                flowinfo: 0,
                scope_id: 0,
            })
            &&& !config.ipv6_enabled ==> made.address == (SocketAddr::V4 { ip: 0, port: b.port })
            &&& made.tunnel_protocol == b.tunnel_protocol
            &&& made.protocol == detected(made.listeners)
        }),
{
}

/// The protocol of a bind: TLS if a listener speaks HTTPS or TLS, else TCP if one speaks TCP, else
/// HTTP.
pub proof fn bind_protocol_is_detected(listeners: Map<Text, ListenerView>, k: Text)
    ensures
        listeners.contains_key(k) && (listeners[k].protocol is HTTPS || listeners[k].protocol
            is TLS) ==> detected(listeners) == BindProtocol::tls,
        detected(listeners) == BindProtocol::tls ==> exists|l: Text| #[trigger]
            listeners.contains_key(l) && (listeners[l].protocol is HTTPS || listeners[l].protocol
                is TLS),
        listeners.contains_key(k) && listeners[k].protocol is TCP ==> detected(listeners)
            != BindProtocol::http,
        detected(listeners) == BindProtocol::tcp ==> exists|l: Text| #[trigger]
            listeners.contains_key(l) && listeners[l].protocol is TCP,
        detected(listeners) == BindProtocol::tls || detected(listeners) == BindProtocol::tcp
            || detected(listeners) == BindProtocol::http,
{
}

/// A bind has the listeners that are written, each under its key; of two with one key the last
/// counts.
pub proof fn bind_has_its_listeners(
    b: LocalBind,
    config: GatewayConfig,
    gateway: ListenerTargetView,
    i: int,
)
    requires
        0 <= i < b.listeners@.len(),
        forall|j: int|
            i < j < b.listeners@.len() ==> (#[trigger] b.listeners@[j]).converted(
                config,
                j,
                b.made(config, gateway).key,
                gateway,
            ).listener.key != b.listeners@[i].converted(
                config,
                i,
                b.made(config, gateway).key,
                gateway,
            ).listener.key,
    ensures
        ({
            let made = b.made(config, gateway);
            let l = b.listeners@[i].converted(config, i, made.key, gateway).listener;
            made.listeners.contains_key(l.key) && made.listeners[l.key] == l
        }),
{
    let made = b.made(config, gateway);
    let list = crate::local::convert::listeners_made(config, made.key, gateway, b.listeners@);
    assert forall|j: int| i < j < list.len() implies (#[trigger] list[j]).key != list[i].key by {
        assert(list[j] == b.listeners@[j].converted(config, j, made.key, gateway).listener);
    }
    lemma_last_listener(list, i);
}

proof fn lemma_last_listener(list: Seq<ListenerView>, i: int)
    requires
        0 <= i < list.len(),
        forall|j: int| i < j < list.len() ==> (#[trigger] list[j]).key != list[i].key,
    ensures
        listeners_of(list).contains_key(list[i].key),
        listeners_of(list)[list[i].key] == list[i],
    decreases list.len(),
{
    if i < list.len() - 1 {
        assert(list[list.len() - 1].key != list[i].key);
        lemma_last_listener(list.drop_last(), i);
    }
}

/// A further bind adds itself, and for each of its listeners, in order, the routes, TCP routes,
/// policies and backends of that listener.
pub proof fn further_bind_adds_its_listeners(
    config: GatewayConfig,
    gateway: ListenerTargetView,
    binds: Seq<LocalBind>,
    b: LocalBind,
    n: int,
)
    ensures
        ({
            let before = binds_converted(config, gateway, binds);
            let after = binds_converted(config, gateway, binds.push(b));
            let key = "bind/"@ + decimal(b.port as nat);
            &&& after.binds == before.binds.push(b.made(config, gateway))
            &&& after.listener_routes.len() == before.listener_routes.len() + b.listeners@.len()
            &&& after.listener_tcp_routes.len() == before.listener_tcp_routes.len()
                + b.listeners@.len()
            &&& 0 <= n < before.listener_routes.len() ==> after.listener_routes[n]
                == before.listener_routes[n]
            &&& 0 <= n < before.listener_tcp_routes.len() ==> after.listener_tcp_routes[n]
                == before.listener_tcp_routes[n]
            &&& 0 <= n < b.listeners@.len() ==> {
                let c = b.listeners@[n].converted(config, n, key, gateway);
                &&& after.listener_routes[before.listener_routes.len() + n] == (
                    c.listener.key,
                    c.routes,
                )
                &&& after.listener_tcp_routes[before.listener_tcp_routes.len() + n] == (
                    c.listener.key,
                    c.tcp_routes,
                )
            }
            &&& after.policies == before.policies + gathered(
                b.listeners@,
                |i: int, l: LocalListener| l.converted(config, i, key, gateway).policies,
            )
            &&& after.backends == before.backends + gathered(
                b.listeners@,
                |i: int, l: LocalListener| l.converted(config, i, key, gateway).backends,
            )
            &&& binds_converted(config, gateway, Seq::empty())
                == crate::local::convert::nothing_converted()
        }),
{
    assert(binds.push(b).drop_last() =~= binds);
    let key = b.key();
    let routes = crate::local::convert::listener_routes_made(config, key, gateway);
    let tcp = crate::local::convert::listener_tcp_routes_made(config, key, gateway);
    lemma_one_each(b.listeners@, routes, n);
    lemma_one_each(b.listeners@, tcp, n);
    assert(crate::local::convert::listener_policies_made(config, key, gateway) =~= |
        i: int,
        l: LocalListener,
    | l.converted(config, i, key, gateway).policies);
    assert(crate::local::convert::listener_backends_made(config, key, gateway) =~= |
        i: int,
        l: LocalListener,
    | l.converted(config, i, key, gateway).backends);
}

proof fn lemma_one_each<T, V>(items: Seq<T>, values: spec_fn(int, T) -> Seq<V>, n: int)
    requires
        forall|i: int, t: T| (#[trigger] values(i, t)).len() == 1,
    ensures
        gathered(items, values).len() == items.len(),
        0 <= n < items.len() ==> gathered(items, values)[n] == values(n, items[n])[0],
    decreases items.len(),
{
    if items.len() > 0 {
        lemma_one_each(items.drop_last(), values, n);
        assert(values(items.len() - 1, items.last()).len() == 1);
    }
}

/// A bind is refused for the first of its listeners that is refused.
pub proof fn binds_are_refused_for_their_listeners(
    config: GatewayConfig,
    gateway: ListenerTargetView,
    b: LocalBind,
    i: int,
)
    ensures
        bind_refusals(config, gateway)(i, b) == first_refusal(
            b.listeners@,
            |n: int, l: LocalListener|
                l.refusal(config, n, "bind/"@ + decimal(b.port as nat), gateway),
        ),
{
    assert(crate::local::convert::listener_refusals(config, b.key(), gateway) =~= |
        n: int,
        l: LocalListener,
    | l.refusal(config, n, "bind/"@ + decimal(b.port as nat), gateway));
}

// ---------------------------------------------------------------------------------------------
// Policies, backends and groups
// ---------------------------------------------------------------------------------------------

/// A policy that is written apart is attached to its target under its own name, in the phase that
/// is written if it is one of requests.
pub proof fn written_policy_is_attached_to_its_target(p: LocalPolicy, config: GatewayConfig)
    requires
        p.refusal(config) is None,
    ensures
        ({
            let t = p.attached(config);
            let id = p.name@.namespace + "/"@ + p.name@.name;
            let rules = p.policy.route_rules(Some(config.context_of(PolicyIdView::Policy(id))));
            let backend_rules = p.policy.backend_rules();
            &&& t.key == id
            &&& t.name matches Some(n) && n.kind == "Local"@ && n.name == p.name@.name
                && n.namespace == p.name@.namespace
            &&& t.target == p.target@
            &&& rules.len() + backend_rules.len() == 1
            &&& rules.len() == 1 ==> t.policy == PolicyTypeView::Traffic(rules[0], p.phase)
            &&& backend_rules.len() == 1 ==> t.policy == PolicyTypeView::Backend(backend_rules[0]@)
        }),
{
}

/// A policy that is written apart is refused if its target names both a listener and a port, else
/// for what it holds, else if it does not hold exactly one policy.
pub proof fn written_policies_hold_one_policy(p: LocalPolicy, config: GatewayConfig, i: int)
    ensures
        ({
            let id = p.name@.namespace + "/"@ + p.name@.name;
            let context = Some(config.context_of(PolicyIdView::Policy(id)));
            let mixed = p.target@ matches PolicyTargetView::Gateway(t) && t.listener_name is Some
                && t.port is Some;
            &&& policy_refusals(config)(i, p) == p.refusal(config)
            &&& p.refusal(config) == (if mixed {
                Some("a gateway target cannot name both a listener and a port"@)
            } else if p.policy.refusal(context) is Some {
                p.policy.refusal(context)
            } else if p.policy.route_rules(context).len() + p.policy.backend_rules().len() != 1 {
                Some("'policies' must contain exactly 1 policy"@)
            } else {
                None
            })
        }),
{
}

/// Policies that are written apart are attached in the order in which they are written.
pub proof fn written_policies_are_attached_in_order(
    config: GatewayConfig,
    policies: Seq<LocalPolicy>,
    i: int,
)
    ensures
        policies_attached(config, policies).len() == policies.len(),
        0 <= i < policies.len() ==> policies_attached(config, policies)[i] == policies[i].attached(
            config,
        ),
{
}

/// A named backend is made under its name; if more than one backend is made for it, as for MCP, its
/// policies go to the last, which is the one with its name, behind those that it has.
pub proof fn named_backend_gets_its_policies(
    config: GatewayConfig,
    b: FullLocalBackend,
    i: int,
    j: int,
)
    ensures
        ({
            let made = b.spec.among_all().backends(
                ResourceNameView { name: b.name@, namespace: Seq::empty() },
                config.default_backend_tls,
                config.mcp_session_ttl,
            );
            let list = named_backends(config)(i, b);
            let own = backend_policies(b.policies);
            made.len() > 0 ==> {
                &&& list.len() == made.len()
                &&& 0 <= j < made.len() - 1 ==> list[j] == made[j]
                &&& list.last().backend == made.last().backend
                &&& list.last().inline_policies == made.last().inline_policies + views(own)
            }
        }),
{
}

/// A named backend is refused if inference routing is set on it, else for its policies, else for
/// what it is.
pub proof fn named_backends_are_refused_for_the_first_reason(
    config: GatewayConfig,
    b: FullLocalBackend,
    i: int,
)
    ensures
        ({
            let inference = inference_refusal(b.policies, InferenceRoutingScope::NamedBackend);
            backend_refusals(config)(i, b) == (if inference is Some {
                inference
            } else if backend_refusal(b.policies) is Some {
                backend_refusal(b.policies)
            } else {
                b.spec.among_all().refusal(config.default_backend_tls)
            })
        }),
{
}

/// A group has the routes that are written, in order, each converted at its place under a key made
/// of the name of the group. Groups keep their order.
pub proof fn groups_have_their_routes(
    config: GatewayConfig,
    groups: Seq<LocalRouteGroup>,
    i: int,
    j: int,
)
    ensures
        groups_made(config, groups).len() == groups.len(),
        0 <= i < groups.len() ==> {
            let made = groups_made(config, groups)[i];
            &&& made.0 == groups[i].name@
            &&& made.1.len() == groups[i].routes@.len()
            &&& 0 <= j < groups[i].routes@.len() ==> made.1[j] == groups[i].routes@[j].route(
                config,
                j,
                "routegroup/"@ + groups[i].name@,
            )
            &&& group_refusals(config)(i, groups[i]) == first_refusal(
                groups[i].routes@,
                |n: int, r: LocalRoute| r.refusal(config, n, "routegroup/"@ + groups[i].name@),
            )
            &&& group_backends(config)(i, groups[i]) == gathered(
                groups[i].routes@,
                |n: int, r: LocalRoute| r.made(config, n, "routegroup/"@ + groups[i].name@),
            )
        },
{
    if 0 <= i < groups.len() {
        let key = "routegroup/"@ + groups[i].name@;
        assert(route_refusals(config, key) =~= |n: int, r: LocalRoute| r.refusal(config, n, key));
        assert(route_backends(config, key) =~= |n: int, r: LocalRoute| r.made(config, n, key));
    }
}

// ---------------------------------------------------------------------------------------------
// The configuration as a whole
// ---------------------------------------------------------------------------------------------

/// A configuration is normalized part by part: the binds with those of models and of MCP behind
/// them, the routes of each listener under its key, the policies of listeners, those written apart,
/// those of models and of MCP and those of the frontend, in that order, the backends of listeners,
/// those that are named, those of models, of MCP and of groups, in that order, the groups with
/// their routes, and workloads and services as they are.
pub proof fn configuration_is_normalized_part_by_part(
    i: LocalConfig,
    config: GatewayConfig,
    gateway: ListenerTargetView,
    r: NormalizedLocalConfig,
)
    requires
        normalizes(i, config, gateway, r),
    ensures
        ({
            let binds = binds_converted(config, gateway, i.binds@);
            let llm = match i.llm {
                Some(c) => Some(
                    c.converted(
                        config,
                        gateway,
                        config.model_name_transformation.compiled,
                        config.startup_timestamp,
                    ),
                ),
                None => None,
            };
            let mcp = match i.mcp {
                Some(c) => Some(c.converted(config, gateway)),
                None => None,
            };
            let none = Seq::<TargetedPolicyView>::empty();
            let no_backends = Seq::<BackendWithPoliciesView>::empty();
            &&& views(r.binds@) == binds.binds + (match llm {
                Some(b) => seq![b.bind],
                None => Seq::empty(),
            }) + (match mcp {
                Some(b) => seq![b.bind],
                None => Seq::empty(),
            })
            &&& keyed_views(r.listener_routes@) == binds.listener_routes + (match llm {
                Some(b) => seq![("llm"@, b.routes)],
                None => Seq::empty(),
            }) + (match mcp {
                Some(b) => seq![("mcp"@, b.routes)],
                None => Seq::empty(),
            })
            &&& keyed_views(r.listener_tcp_routes@) == binds.listener_tcp_routes + (match llm {
                Some(b) => seq![("llm"@, Seq::<TCPRouteView>::empty())],
                None => Seq::empty(),
            }) + (match mcp {
                Some(b) => seq![("mcp"@, Seq::<TCPRouteView>::empty())],
                None => Seq::empty(),
            })
            &&& keyed_views(r.route_groups@) == groups_made(config, i.route_groups@)
            &&& exists|frontend: LocalFrontendPolicies| #[trigger]
                merged_frontend(config, i.frontend_policies, frontend) && views(r.policies@)
                    == binds.policies + policies_attached(config, i.policies@) + (match llm {
                    Some(b) => b.policies,
                    None => none,
                }) + (match mcp {
                    Some(b) => b.policies,
                    None => none,
                }) + frontend.attached(gateway)
            &&& views(r.backends@) == binds.backends + gathered(
                i.backends@,
                named_backends(config),
            ) + (match llm {
                Some(b) => b.backends,
                None => no_backends,
            }) + (match mcp {
                Some(b) => b.backends,
                None => no_backends,
            }) + gathered(i.route_groups@, group_backends(config))
            &&& r.workloads == i.workloads
            &&& r.services == i.services
        }),
{
    let c = i.converted(config, gateway);
    let binds = binds_converted(config, gateway, i.binds@);
    let llm = crate::local::convert::llm_converted(config, gateway, i.llm);
    let mcp = crate::local::convert::mcp_converted(config, gateway, i.mcp);
    let b1 = match llm {
        Some(b) => seq![b.bind],
        None => Seq::empty(),
    };
    let b2 = match mcp {
        Some(b) => seq![b.bind],
        None => Seq::empty(),
    };
    assert(c.binds =~= binds.binds + b1 + b2);
    let r1 = match llm {
        Some(b) => seq![("llm"@, b.routes)],
        None => Seq::empty(),
    };
    let r2 = match mcp {
        Some(b) => seq![("mcp"@, b.routes)],
        None => Seq::empty(),
    };
    assert(c.listener_routes =~= binds.listener_routes + r1 + r2);
    let t1 = match llm {
        Some(b) => seq![("llm"@, Seq::<TCPRouteView>::empty())],
        None => Seq::empty(),
    };
    let t2 = match mcp {
        Some(b) => seq![("mcp"@, Seq::<TCPRouteView>::empty())],
        None => Seq::empty(),
    };
    assert(c.listener_tcp_routes =~= binds.listener_tcp_routes + t1 + t2);
    let p1 = match llm {
        Some(b) => b.policies,
        None => Seq::<TargetedPolicyView>::empty(),
    };
    let p2 = match mcp {
        Some(b) => b.policies,
        None => Seq::<TargetedPolicyView>::empty(),
    };
    assert(c.policies =~= binds.policies + policies_attached(config, i.policies@) + p1 + p2);
    let k1 = match llm {
        Some(b) => b.backends,
        None => Seq::<BackendWithPoliciesView>::empty(),
    };
    let k2 = match mcp {
        Some(b) => b.backends,
        None => Seq::<BackendWithPoliciesView>::empty(),
    };
    assert(c.backends =~= binds.backends + gathered(i.backends@, named_backends(config)) + k1 + k2);
}

/// A configuration is refused for its frontend policies, else for the first bind, policy, or
/// backend that is refused, else for its models, for MCP, or for the first group that is refused.
pub proof fn configurations_are_refused_for_the_first_reason(
    i: LocalConfig,
    config: GatewayConfig,
    gateway: ListenerTargetView,
)
    ensures
        ({
            let frontend = merge_refusal(config, i.frontend_policies);
            let binds = first_refusal(i.binds@, bind_refusals(config, gateway));
            let policies = first_refusal(i.policies@, policy_refusals(config));
            let backends = first_refusal(i.backends@, backend_refusals(config));
            let llm = match i.llm {
                Some(c) => c.refusal(config, config.model_name_transformation.compiled),
                None => None,
            };
            let mcp = match i.mcp {
                Some(c) => c.refusal(config),
                None => None,
            };
            i.refusal(config, gateway) == (if frontend is Some {
                frontend
            } else if binds is Some {
                binds
            } else if policies is Some {
                policies
            } else if backends is Some {
                backends
            } else if llm is Some {
                llm
            } else if mcp is Some {
                mcp
            } else {
                first_refusal(i.route_groups@, group_refusals(config))
            })
        }),
{
}

// ---------------------------------------------------------------------------------------------
// What is seen of results
// ---------------------------------------------------------------------------------------------

/// What is seen of what a listener, a bind and a configuration come to is what they hold, item by
/// item.
pub proof fn results_are_seen_as_they_are(
    l: ConvertedListener,
    b: ConvertedBind,
    c: Converted,
    i: int,
)
    ensures
        l@.listener == l.listener@,
        l@.routes.len() == l.routes@.len(),
        l@.tcp_routes.len() == l.tcp_routes@.len(),
        l@.policies.len() == l.policies@.len(),
        l@.backends.len() == l.backends@.len(),
        0 <= i < l.routes@.len() ==> l@.routes[i] == l.routes@[i]@,
        0 <= i < l.tcp_routes@.len() ==> l@.tcp_routes[i] == l.tcp_routes@[i]@,
        0 <= i < l.policies@.len() ==> l@.policies[i] == l.policies@[i]@,
        0 <= i < l.backends@.len() ==> l@.backends[i] == l.backends@[i]@,
        b@.bind == b.bind@,
        b@.routes.len() == b.routes@.len(),
        b@.policies.len() == b.policies@.len(),
        b@.backends.len() == b.backends@.len(),
        0 <= i < b.routes@.len() ==> b@.routes[i] == b.routes@[i]@,
        0 <= i < b.policies@.len() ==> b@.policies[i] == b.policies@[i]@,
        0 <= i < b.backends@.len() ==> b@.backends[i] == b.backends@[i]@,
        c@.binds.len() == c.binds@.len(),
        c@.listener_routes.len() == c.listener_routes@.len(),
        c@.listener_tcp_routes.len() == c.listener_tcp_routes@.len(),
        c@.policies.len() == c.policies@.len(),
        c@.backends.len() == c.backends@.len(),
        0 <= i < c.binds@.len() ==> c@.binds[i] == c.binds@[i]@,
        0 <= i < c.listener_routes@.len() ==> c@.listener_routes[i].0 == c.listener_routes@[i].0@
            && c@.listener_routes[i].1 == views(c.listener_routes@[i].1@),
        0 <= i < c.listener_tcp_routes@.len() ==> c@.listener_tcp_routes[i].0
            == c.listener_tcp_routes@[i].0@ && c@.listener_tcp_routes[i].1 == views(
            c.listener_tcp_routes@[i].1@,
        ),
        0 <= i < c.policies@.len() ==> c@.policies[i] == c.policies@[i]@,
        0 <= i < c.backends@.len() ==> c@.backends[i] == c.backends@[i]@,
{
}

/// What is seen of an error is its message, and of a context what policies belong to and what seals
/// their cookies.
pub proof fn contexts_are_seen_as_they_are(e: ConfigError, context: AttachedPolicyContext)
    ensures
        e@ == e.message@,
        context@.oidc_policy_id == context.oidc_policy_id@,
        context@.oidc_cookie_encoder == context.oidc_cookie_encoder,
{
}

} // verus!
