//! The conversion of a whole configuration.

use std::sync::Arc;

use vstd::prelude::*;

use crate::json::Json;
use crate::local::backends::{
    local_name, local_name_of, target_backend_name, target_backends, FullLocalBackend,
    FullLocalBackendSpec, LocalBackend, LocalMcpTarget,
};
use crate::local::config::GatewayConfig;
use crate::local::error::{
    extend, first_refusal, gathered, lemma_first_refusal, lemma_gathered, ConfigError, Loaded,
};
use crate::local::frontend::{
    merge_deprecated_frontend_policies, merge_refusal, merged_frontend, split_frontend_policies,
    LocalFrontendPolicies,
};
use crate::local::listeners::{
    convert_listener, convert_routes, detect_bind_protocol, detected, route_backends,
    route_refusals, routes_of, LocalListener,
};
use crate::local::llm::{
    bind_key, bind_key_of, convert_llm_config, ConvertedBind, ConvertedBindView, LocalLLMConfig,
};
use crate::local::mcp::{convert_mcp_config, LocalSimpleMcpConfig};
use crate::local::policies::{
    backend_policies, backend_refusal, inference_refusal, translate_backend_policies,
    validate_inference_routing_scope, InferenceRoutingScope,
};
use crate::local::routes::LocalRoute;
use crate::local::split::{split_policies, FilterOrPolicy};
use crate::text::{join2, lemma_views, views, Text};
use crate::types::agent::{
    listeners_of, BackendWithPolicies, BackendWithPoliciesView, Bind, BindView, ListenerKey,
    ListenerSet, ListenerTarget, ListenerTargetView, ListenerView, PolicyTarget, ResourceName,
    ResourceNameView, Route, RouteGroupKey, RouteView, SocketAddr, TCPRoute, TCPRouteView,
    TargetedPolicy, TargetedPolicyView, TunnelProtocol, TypedResourceName, TypedResourceNameView,
};
use crate::types::policy::{first_of, Nanos, PolicyBody, PolicyId, PolicyIdView};
use crate::types::traffic::{
    BackendTrafficPolicy, PolicyPhase, PolicyType, PolicyTypeView, TrafficPolicy,
};

verus! {

// ---------------------------------------------------------------------------------------------
// The configuration
// ---------------------------------------------------------------------------------------------

/// A port that the gateway accepts connections on.
#[derive(Debug)]
pub struct LocalBind {
    pub port: u16,
    pub listeners: Vec<LocalListener>,
    pub tunnel_protocol: TunnelProtocol,
}

/// Routes that other routes can go on to.
#[derive(Debug)]
pub struct LocalRouteGroup {
    pub name: RouteGroupKey,
    pub routes: Vec<LocalRoute>,
}

/// A policy with what it attaches to.
#[derive(Debug)]
pub struct LocalPolicy {
    pub name: ResourceName,
    pub target: PolicyTarget,
    /// Gateway policies run before a route is chosen, route policies after.
    pub phase: PolicyPhase,
    pub policy: FilterOrPolicy,
}

/// A configuration.
#[derive(Debug)]
pub struct LocalConfig {
    /// What the gateway is started with.
    pub config: Option<Arc<Json>>,
    pub binds: Vec<LocalBind>,
    pub frontend_policies: LocalFrontendPolicies,
    /// Policies that attach to something that is defined elsewhere.
    pub policies: Vec<LocalPolicy>,
    pub workloads: Vec<Arc<PolicyBody>>,
    pub services: Vec<Arc<PolicyBody>>,
    pub backends: Vec<FullLocalBackend>,
    pub route_groups: Vec<LocalRouteGroup>,
    pub llm: Option<LocalLLMConfig>,
    pub mcp: Option<LocalSimpleMcpConfig>,
}

/// What a configuration comes to.
#[derive(Debug)]
pub struct NormalizedLocalConfig {
    pub binds: Vec<Bind>,
    pub listener_routes: Vec<(ListenerKey, Vec<Route>)>,
    pub listener_tcp_routes: Vec<(ListenerKey, Vec<TCPRoute>)>,
    pub policies: Vec<TargetedPolicy>,
    pub backends: Vec<BackendWithPolicies>,
    pub route_groups: Vec<(RouteGroupKey, Vec<Route>)>,
    pub workloads: Vec<Arc<PolicyBody>>,
    pub services: Vec<Arc<PolicyBody>>,
}

/// What lists of routes hold, by the keys that they belong to.
pub open spec fn keyed_views<R: View>(list: Seq<(String, Vec<R>)>) -> Seq<(Text, Seq<R::V>)> {
    list.map_values(|p: (String, Vec<R>)| (p.0@, views(p.1@)))
}

proof fn lemma_keyed_views<R: View>(a: Seq<(String, Vec<R>)>, b: Seq<(String, Vec<R>)>)
    ensures
        keyed_views(a + b) == keyed_views(a) + keyed_views(b),
        forall|k: String, v: Vec<R>| #[trigger]
            keyed_views(a.push((k, v))) == keyed_views(a).push((k@, views(v@))),
{
    assert(keyed_views(a + b) =~= keyed_views(a) + keyed_views(b));
    assert forall|k: String, v: Vec<R>| #[trigger]
        keyed_views(a.push((k, v))) == keyed_views(a).push((k@, views(v@))) by {
        assert(keyed_views(a.push((k, v))) =~= keyed_views(a).push((k@, views(v@))));
    }
}

// ---------------------------------------------------------------------------------------------
// Binds
// ---------------------------------------------------------------------------------------------

/// Why a listener of a bind is refused, if it is.
pub open spec fn listener_refusals(
    config: GatewayConfig,
    bind_key: Text,
    gateway: ListenerTargetView,
) -> spec_fn(int, LocalListener) -> Option<Text> {
    |i: int, l: LocalListener| l.refusal(config, i, bind_key, gateway)
}

/// The listeners of a bind.
pub open spec fn listeners_made(
    config: GatewayConfig,
    bind_key: Text,
    gateway: ListenerTargetView,
    listeners: Seq<LocalListener>,
) -> Seq<ListenerView> {
    listeners.map(
        |i: int, l: LocalListener| l.converted(config, i, bind_key, gateway).listener,
    )
}

/// The routes of a listener of a bind, under the key of the listener.
pub open spec fn listener_routes_made(
    config: GatewayConfig,
    bind_key: Text,
    gateway: ListenerTargetView,
) -> spec_fn(int, LocalListener) -> Seq<(Text, Seq<RouteView>)> {
    |i: int, l: LocalListener|
        {
            let c = l.converted(config, i, bind_key, gateway);
            seq![(c.listener.key, c.routes)]
        }
}

/// The TCP routes of a listener of a bind, under the key of the listener.
pub open spec fn listener_tcp_routes_made(
    config: GatewayConfig,
    bind_key: Text,
    gateway: ListenerTargetView,
) -> spec_fn(int, LocalListener) -> Seq<(Text, Seq<TCPRouteView>)> {
    |i: int, l: LocalListener|
        {
            let c = l.converted(config, i, bind_key, gateway);
            seq![(c.listener.key, c.tcp_routes)]
        }
}

/// The policies of a listener of a bind.
pub open spec fn listener_policies_made(
    config: GatewayConfig,
    bind_key: Text,
    gateway: ListenerTargetView,
) -> spec_fn(int, LocalListener) -> Seq<TargetedPolicyView> {
    |i: int, l: LocalListener| l.converted(config, i, bind_key, gateway).policies
}

/// The backends of a listener of a bind.
pub open spec fn listener_backends_made(
    config: GatewayConfig,
    bind_key: Text,
    gateway: ListenerTargetView,
) -> spec_fn(int, LocalListener) -> Seq<BackendWithPoliciesView> {
    |i: int, l: LocalListener| l.converted(config, i, bind_key, gateway).backends
}

impl LocalBind {
    /// The key of the bind.
    pub open spec fn key(self) -> Text {
        bind_key_of(self.port)
    }

    /// The bind that is made. Of listeners with one key the last stays.
    pub open spec fn made(self, config: GatewayConfig, gateway: ListenerTargetView) -> BindView {
        let listeners = listeners_of(
            listeners_made(config, self.key(), gateway, self.listeners@),
        );
        BindView {
            key: self.key(),
            address: SocketAddr::any_of(config.ipv6_enabled, self.port),
            protocol: detected(listeners),
            tunnel_protocol: self.tunnel_protocol,
            listeners,
        }
    }
}

/// What the binds of a configuration come to.
#[derive(Debug)]
pub struct Converted {
    pub binds: Vec<Bind>,
    pub listener_routes: Vec<(ListenerKey, Vec<Route>)>,
    pub listener_tcp_routes: Vec<(ListenerKey, Vec<TCPRoute>)>,
    pub policies: Vec<TargetedPolicy>,
    pub backends: Vec<BackendWithPolicies>,
}

/// What a [`Converted`] holds.
#[verifier::ext_equal]
pub struct ConvertedView {
    pub binds: Seq<BindView>,
    pub listener_routes: Seq<(Text, Seq<RouteView>)>,
    pub listener_tcp_routes: Seq<(Text, Seq<TCPRouteView>)>,
    pub policies: Seq<TargetedPolicyView>,
    pub backends: Seq<BackendWithPoliciesView>,
}

impl View for Converted {
    type V = ConvertedView;

    open spec fn view(&self) -> ConvertedView {
        ConvertedView {
            binds: views(self.binds@),
            listener_routes: keyed_views(self.listener_routes@),
            listener_tcp_routes: keyed_views(self.listener_tcp_routes@),
            policies: views(self.policies@),
            backends: views(self.backends@),
        }
    }
}

impl Converted {
    /// The listeners of each bind are held under their keys.
    pub open spec fn wf(self) -> bool {
        forall|i: int| 0 <= i < self.binds@.len() ==> (#[trigger] self.binds@[i]).wf()
    }
}

/// Nothing yet.
pub open spec fn nothing_converted() -> ConvertedView {
    ConvertedView {
        binds: Seq::empty(),
        listener_routes: Seq::empty(),
        listener_tcp_routes: Seq::empty(),
        policies: Seq::empty(),
        backends: Seq::empty(),
    }
}

/// What was converted, and a bind with what belongs to it.
pub open spec fn with_bind(
    c: ConvertedView,
    config: GatewayConfig,
    gateway: ListenerTargetView,
    b: LocalBind,
) -> ConvertedView {
    ConvertedView {
        binds: c.binds.push(b.made(config, gateway)),
        listener_routes: c.listener_routes + gathered(
            b.listeners@,
            listener_routes_made(config, b.key(), gateway),
        ),
        listener_tcp_routes: c.listener_tcp_routes + gathered(
            b.listeners@,
            listener_tcp_routes_made(config, b.key(), gateway),
        ),
        policies: c.policies + gathered(
            b.listeners@,
            listener_policies_made(config, b.key(), gateway),
        ),
        backends: c.backends + gathered(
            b.listeners@,
            listener_backends_made(config, b.key(), gateway),
        ),
    }
}

/// What binds come to.
pub open spec fn binds_converted(
    config: GatewayConfig,
    gateway: ListenerTargetView,
    binds: Seq<LocalBind>,
) -> ConvertedView
    decreases binds.len(),
{
    if binds.len() == 0 {
        nothing_converted()
    } else {
        with_bind(
            binds_converted(config, gateway, binds.drop_last()),
            config,
            gateway,
            binds.last(),
        )
    }
}

/// Why a bind is refused, if it is.
pub open spec fn bind_refusals(config: GatewayConfig, gateway: ListenerTargetView) -> spec_fn(
    int,
    LocalBind,
) -> Option<Text> {
    |i: int, b: LocalBind|
        first_refusal(b.listeners@, listener_refusals(config, b.key(), gateway))
}

fn convert_bind(
    config: &GatewayConfig,
    gateway: &ListenerTarget,
    b: LocalBind,
    out: Converted,
) -> (r: Result<Converted, ConfigError>)
    requires
        out.wf(),
    ensures
        match r {
            Ok(c) => {
                &&& first_refusal(
                    b.listeners@,
                    listener_refusals(*config, b.key(), gateway@),
                ) is None
                &&& c.wf()
                &&& c@ == with_bind(out@, *config, gateway@, b)
            },
            Err(e) => first_refusal(
                b.listeners@,
                listener_refusals(*config, b.key(), gateway@),
            ) == Some(e@),
        },
{
    let ghost given = b;
    let ghost before = out@;
    let ghost all = b.listeners@;
    let ghost key_text = b.key();
    let ghost refusals = listener_refusals(*config, key_text, gateway@);
    let ghost routes_made = listener_routes_made(*config, key_text, gateway@);
    let ghost tcp_made = listener_tcp_routes_made(*config, key_text, gateway@);
    let ghost policies_made = listener_policies_made(*config, key_text, gateway@);
    let ghost backends_made = listener_backends_made(*config, key_text, gateway@);
    let ghost made = listeners_made(*config, key_text, gateway@, all);
    let key = bind_key(b.port);
    let Converted { mut binds, mut listener_routes, mut listener_tcp_routes, mut policies, mut backends } =
        out;
    let mut ls = ListenerSet::new();
    let total: usize = b.listeners.len();
    let mut idx: usize = 0;
    assert(made.take(0) =~= Seq::<ListenerView>::empty());
    assert(all.take(0) =~= Seq::<LocalListener>::empty());
    assert(before.listener_routes + Seq::<(Text, Seq<RouteView>)>::empty()
        =~= before.listener_routes);
    assert(before.listener_tcp_routes + Seq::<(Text, Seq<TCPRouteView>)>::empty()
        =~= before.listener_tcp_routes);
    assert(before.policies + Seq::<TargetedPolicyView>::empty() =~= before.policies);
    assert(before.backends + Seq::<BackendWithPoliciesView>::empty() =~= before.backends);
    for l in it: b.listeners.into_iter()
        invariant
            it.seq() == all,
            total == all.len(),
            idx == it.index(),
            ls.wf(),
            given == b,
            given.listeners@ == all,
            given.key() == key_text,
            key@ == key_text,
            refusals == listener_refusals(*config, key_text, gateway@),
            routes_made == listener_routes_made(*config, key_text, gateway@),
            tcp_made == listener_tcp_routes_made(*config, key_text, gateway@),
            policies_made == listener_policies_made(*config, key_text, gateway@),
            backends_made == listener_backends_made(*config, key_text, gateway@),
            made == listeners_made(*config, key_text, gateway@, all),
            first_refusal(all.take(it.index() as int), refusals) is None,
            ls@ == listeners_of(made.take(it.index() as int)),
            keyed_views(listener_routes@) == before.listener_routes + gathered(
                all.take(it.index() as int),
                routes_made,
            ),
            keyed_views(listener_tcp_routes@) == before.listener_tcp_routes + gathered(
                all.take(it.index() as int),
                tcp_made,
            ),
            views(policies@) == before.policies + gathered(
                all.take(it.index() as int),
                policies_made,
            ),
            views(backends@) == before.backends + gathered(
                all.take(it.index() as int),
                backends_made,
            ),
    {
        let ghost n = it.index() as int;
        proof {
            lemma_first_refusal(all, refusals, n);
            lemma_gathered(all, routes_made, n);
            lemma_gathered(all, tcp_made, n);
            lemma_gathered(all, policies_made, n);
            lemma_gathered(all, backends_made, n);
        }
        let c = convert_listener(config, idx, l, key.as_str(), gateway)?;
        let ghost cv = c@;
        proof {
            lemma_keyed_views(listener_routes@, Seq::empty());
            lemma_keyed_views(listener_tcp_routes@, Seq::empty());
            lemma_views(policies@, c.policies@);
            lemma_views(backends@, c.backends@);
        }
        listener_routes.push((c.listener.key.clone(), c.routes));
        listener_tcp_routes.push((c.listener.key.clone(), c.tcp_routes));
        extend(&mut policies, c.policies);
        extend(&mut backends, c.backends);
        ls.insert(Arc::new(c.listener));
        idx = idx + 1;
        proof {
            assert(made[n] == cv.listener);
            assert(made.take(n + 1).drop_last() =~= made.take(n));
            assert(made.take(n + 1).last() == made[n]);
            assert(keyed_views(listener_routes@) =~= before.listener_routes + gathered(
                all.take(n + 1),
                routes_made,
            ));
            assert(keyed_views(listener_tcp_routes@) =~= before.listener_tcp_routes + gathered(
                all.take(n + 1),
                tcp_made,
            ));
            assert(views(policies@) =~= before.policies + gathered(all.take(n + 1), policies_made));
            assert(views(backends@) =~= before.backends + gathered(all.take(n + 1), backends_made));
        }
    }
    assert(all.take(all.len() as int) =~= all);
    assert(made.take(all.len() as int) =~= made);
    let bind = Bind {
        key,
        address: SocketAddr::any(config.ipv6_enabled, b.port),
        protocol: detect_bind_protocol(&ls),
        tunnel_protocol: b.tunnel_protocol,
        listeners: ls,
    };
    assert(bind@ == given.made(*config, gateway@));
    proof {
        lemma_views(binds@, Seq::empty());
    }
    binds.push(bind);
    let r = Converted { binds, listener_routes, listener_tcp_routes, policies, backends };
    assert(r@ =~= with_bind(before, *config, gateway@, given));
    Ok(r)
}

fn convert_binds(config: &GatewayConfig, gateway: &ListenerTarget, binds: Vec<LocalBind>) -> (r:
    Result<Converted, ConfigError>)
    ensures
        match r {
            Ok(c) => {
                &&& first_refusal(binds@, bind_refusals(*config, gateway@)) is None
                &&& c.wf()
                &&& c@ == binds_converted(*config, gateway@, binds@)
            },
            Err(e) => first_refusal(binds@, bind_refusals(*config, gateway@)) == Some(e@),
        },
{
    let ghost all = binds@;
    let ghost refusals = bind_refusals(*config, gateway@);
    let mut out = Converted {
        binds: Vec::new(),
        listener_routes: Vec::new(),
        listener_tcp_routes: Vec::new(),
        policies: Vec::new(),
        backends: Vec::new(),
    };
    assert(all.take(0) =~= Seq::<LocalBind>::empty());
    assert(out@ =~= nothing_converted());
    for b in it: binds.into_iter()
        invariant
            it.seq() == all,
            refusals == bind_refusals(*config, gateway@),
            first_refusal(all.take(it.index() as int), refusals) is None,
            out.wf(),
            out@ == binds_converted(*config, gateway@, all.take(it.index() as int)),
    {
        let ghost n = it.index() as int;
        proof {
            lemma_first_refusal(all, refusals, n);
            assert(all.take(n + 1).drop_last() =~= all.take(n));
            assert(all.take(n + 1).last() == all[n]);
        }
        out = convert_bind(config, gateway, b, out)?;
    }
    assert(all.take(all.len() as int) =~= all);
    Ok(out)
}

// ---------------------------------------------------------------------------------------------
// Attached policies
// ---------------------------------------------------------------------------------------------

impl LocalPolicy {
    /// The context of the policy.
    pub open spec fn context(self, config: GatewayConfig) -> Option<
        crate::local::split::AttachedPolicyContextView,
    > {
        Some(config.context_of(PolicyIdView::Policy(self.name@.full())))
    }

    /// Why the policy is refused, if it is: its target, its settings, or that it is not exactly
    /// one policy.
    pub open spec fn refusal(self, config: GatewayConfig) -> Option<Text> {
        first_of(
            if self.target.valid() {
                None
            } else {
                Some("a gateway target cannot name both a listener and a port"@)
            },
            first_of(
                self.policy.refusal(self.context(config)),
                if self.policy.route_rules(self.context(config)).len()
                    + self.policy.backend_rules().len() != 1 {
                    Some("'policies' must contain exactly 1 policy"@)
                } else {
                    None
                },
            ),
        )
    }

    /// The policy that is attached.
    pub open spec fn attached(self, config: GatewayConfig) -> TargetedPolicyView {
        let rules = self.policy.route_rules(self.context(config));
        TargetedPolicyView {
            key: self.name@.full(),
            name: Some(
                TypedResourceNameView {
                    kind: "Local"@,
                    name: self.name@.name,
                    namespace: self.name@.namespace,
                },
            ),
            target: self.target@,
            policy: if rules.len() > 0 {
                PolicyTypeView::Traffic(rules[0], self.phase)
            } else {
                PolicyTypeView::Backend(self.policy.backend_rules()[0]@)
            },
        }
    }
}

/// Why an attached policy is refused, if it is.
pub open spec fn policy_refusals(config: GatewayConfig) -> spec_fn(int, LocalPolicy) -> Option<
    Text,
> {
    |i: int, p: LocalPolicy| p.refusal(config)
}

/// The policies that are attached.
pub open spec fn policies_attached(config: GatewayConfig, policies: Seq<LocalPolicy>) -> Seq<
    TargetedPolicyView,
> {
    policies.map_values(|p: LocalPolicy| p.attached(config))
}

fn only_policy(
    route_policies: Vec<TrafficPolicy>,
    backend_policies: Vec<BackendTrafficPolicy>,
    phase: PolicyPhase,
) -> (r: Option<PolicyType>)
    ensures
        match r {
            Some(p) => {
                &&& views(route_policies@).len() + backend_policies@.len() == 1
                &&& p@ == (if views(route_policies@).len() > 0 {
                    PolicyTypeView::Traffic(views(route_policies@)[0], phase)
                } else {
                    PolicyTypeView::Backend(backend_policies@[0]@)
                })
            },
            None => views(route_policies@).len() + backend_policies@.len() != 1,
        },
{
    let ghost rules = views(route_policies@);
    let mut route_policies = route_policies;
    let mut backend_policies = backend_policies;
    if route_policies.len() == 1 && backend_policies.len() == 0 {
        match route_policies.pop() {
            Some(p) => {
                assert(rules[0] == p@);
                Some(PolicyType::Traffic(p, phase))
            },
            None => None,
        }
    } else if route_policies.len() == 0 && backend_policies.len() == 1 {
        match backend_policies.pop() {
            Some(p) => Some(PolicyType::Backend(p)),
            None => None,
        }
    } else {
        None
    }
}

fn convert_policy(config: &GatewayConfig, p: LocalPolicy) -> (r: Result<
    TargetedPolicy,
    ConfigError,
>)
    ensures
        match r {
            Ok(t) => p.refusal(*config) is None && t@ == p.attached(*config),
            Err(e) => p.refusal(*config) == Some(e@),
        },
{
    let ghost given = p;
    match p.target.validate() {
        Ok(_) => {},
        Err(_) => {
            return Err(
                ConfigError::new("a gateway target cannot name both a listener and a port"),
            );
        },
    }
    let key = p.name.to_text();
    let res = split_policies(
        p.policy,
        Some(config.policy_context(PolicyId::Policy(key.clone()))),
    )?;
    let policy = match only_policy(res.route_policies, res.backend_policies, p.phase) {
        Some(t) => t,
        None => {
            return Err(ConfigError::new("'policies' must contain exactly 1 policy"));
        },
    };
    Ok(
        TargetedPolicy {
            key,
            name: Some(
                TypedResourceName {
                    kind: "Local".to_owned(),
                    name: p.name.name,
                    namespace: p.name.namespace,
                },
            ),
            target: p.target,
            policy,
        },
    )
}

#[verifier::rlimit(60)]
#[verifier::spinoff_prover]
fn convert_policies(config: &GatewayConfig, policies: Vec<LocalPolicy>) -> (r: Result<
    Vec<TargetedPolicy>,
    ConfigError,
>)
    ensures
        match r {
            Ok(list) => first_refusal(policies@, policy_refusals(*config)) is None && views(list@)
                == policies_attached(*config, policies@),
            Err(e) => first_refusal(policies@, policy_refusals(*config)) == Some(e@),
        },
{
    let ghost all = policies@;
    let mut out: Vec<TargetedPolicy> = Vec::new();
    for p in it: policies.into_iter()
        invariant
            it.seq() == all,
            first_refusal(all.take(it.index() as int), policy_refusals(*config)) is None,
            out@.len() == it.index(),
            forall|j: int|
                0 <= j < it.index() ==> (#[trigger] out@[j])@ == all[j].attached(*config),
    {
        let ghost n = it.index() as int;
        proof {
            lemma_first_refusal(all, policy_refusals(*config), n);
        }
        let t = convert_policy(config, p)?;
        out.push(t);
    }
    assert(all.take(all.len() as int) =~= all);
    assert(views(out@) =~= policies_attached(*config, all));
    Ok(out)
}

// ---------------------------------------------------------------------------------------------
// Named backends
// ---------------------------------------------------------------------------------------------

/// Why a backend of the list of backends is refused, if it is.
pub open spec fn backend_refusals(config: GatewayConfig) -> spec_fn(
    int,
    FullLocalBackend,
) -> Option<Text> {
    |i: int, b: FullLocalBackend|
        first_of(
            inference_refusal(b.policies, InferenceRoutingScope::NamedBackend),
            first_of(
                backend_refusal(b.policies),
                b.spec.among_all().refusal(config.default_backend_tls),
            ),
        )
}

/// The backends of a list of which the last has further policies.
pub open spec fn with_policies(
    list: Seq<BackendWithPoliciesView>,
    policies: Seq<BackendTrafficPolicy>,
) -> Seq<BackendWithPoliciesView> {
    let last = list.last();
    list.drop_last().push(
        BackendWithPoliciesView {
            backend: last.backend,
            inline_policies: last.inline_policies + views(policies),
        },
    )
}

/// The backends that a backend of the list of backends makes. Its policies go to the one that has
/// its name, which is the last.
pub open spec fn named_backends(config: GatewayConfig) -> spec_fn(int, FullLocalBackend) -> Seq<
    BackendWithPoliciesView,
> {
    |i: int, b: FullLocalBackend|
        with_policies(
            b.spec.among_all().backends(
                local_name_of(b.name@),
                config.default_backend_tls,
                config.mcp_session_ttl,
            ),
            backend_policies(b.policies),
        )
}

/// The backends that an MCP backend makes for its targets have longer names than the backend.
proof fn lemma_target_names(
    name: ResourceNameView,
    targets: Seq<LocalMcpTarget>,
    default_tls: Loaded<PolicyBody>,
    k: int,
)
    requires
        0 <= k < gathered(targets, target_backends(name, default_tls)).len(),
    ensures
        gathered(
            targets,
            target_backends(name, default_tls),
        )[k].backend.given_name() != Some(name),
    decreases targets.len(),
{
    let f = target_backends(name, default_tls);
    let rest = gathered(targets.drop_last(), f);
    let i = targets.len() - 1;
    let last = f(i, targets.last());
    if k < rest.len() {
        lemma_target_names(name, targets.drop_last(), default_tls, k);
        assert(gathered(targets, f)[k] == rest[k]);
    } else {
        assert(gathered(targets, f)[k] == last[k - rest.len()]);
        let made = target_backend_name(name, i as int);
        reveal_strlit("mcp/");
        assert("mcp/"@.len() == 4);
        assert(made.len() > name.name.len());
    }
}

/// Among the backends that a backend of the list of backends makes, the last has its name and no
/// other has: the policies of the backend go to the backend itself.
pub proof fn named_backend_is_the_last(
    spec: FullLocalBackendSpec,
    name: ResourceNameView,
    default_tls: Loaded<PolicyBody>,
    session_ttl: Nanos,
    k: int,
)
    requires
        0 <= k < spec.among_all().backends(name, default_tls, session_ttl).len(),
    ensures
        spec.among_all().backends(name, default_tls, session_ttl)[k].backend.given_name() == Some(
            name,
        ) <==> k == spec.among_all().backends(name, default_tls, session_ttl).len() - 1,
{
    match spec {
        FullLocalBackendSpec::MCP(m) => {
            let made = gathered(m.targets@, target_backends(name, default_tls));
            if k < made.len() {
                lemma_target_names(name, m.targets@, default_tls, k);
                assert(m.backends(name, default_tls, session_ttl)[k] == made[k]);
            }
        },
        _ => {},
    }
}

fn convert_backend(config: &GatewayConfig, b: FullLocalBackend, Ghost(i): Ghost<int>) -> (r: Result<
    Vec<BackendWithPolicies>,
    ConfigError,
>)
    ensures
        match r {
            Ok(list) => backend_refusals(*config)(i, b) is None && views(list@) == named_backends(
                *config,
            )(i, b),
            Err(e) => backend_refusals(*config)(i, b) == Some(e@),
        },
{
    let ghost given = b;
    validate_inference_routing_scope(&b.policies, InferenceRoutingScope::NamedBackend)?;
    let policies = translate_backend_policies(b.policies)?;
    let lb = LocalBackend::from(b.spec);
    let mut bws = lb.as_backends(
        local_name(b.name),
        &config.default_backend_tls,
        config.mcp_session_ttl,
    )?;
    let ghost all = bws@;
    match bws.pop() {
        Some(primary) => {
            let mut inline_policies = primary.inline_policies;
            proof {
                lemma_views(inline_policies@, policies@);
                lemma_views(bws@, Seq::empty());
                assert(views(bws@) =~= views(all).drop_last());
                assert(views(all).last() == primary@);
            }
            extend(&mut inline_policies, policies);
            bws.push(BackendWithPolicies { backend: primary.backend, inline_policies });
        },
        None => {
            assert(views(all).len() == 0);
            assert(false);
        },
    }
    Ok(bws)
}

fn convert_backends(config: &GatewayConfig, backends: Vec<FullLocalBackend>) -> (r: Result<
    Vec<BackendWithPolicies>,
    ConfigError,
>)
    ensures
        match r {
            Ok(list) => first_refusal(backends@, backend_refusals(*config)) is None && views(list@)
                == gathered(backends@, named_backends(*config)),
            Err(e) => first_refusal(backends@, backend_refusals(*config)) == Some(e@),
        },
{
    let ghost all = backends@;
    let ghost refusals = backend_refusals(*config);
    let ghost made = named_backends(*config);
    let mut out: Vec<BackendWithPolicies> = Vec::new();
    assert(views(out@) =~= Seq::<BackendWithPoliciesView>::empty());
    for b in it: backends.into_iter()
        invariant
            it.seq() == all,
            refusals == backend_refusals(*config),
            made == named_backends(*config),
            first_refusal(all.take(it.index() as int), refusals) is None,
            views(out@) == gathered(all.take(it.index() as int), made),
    {
        let ghost n = it.index() as int;
        proof {
            lemma_first_refusal(all, refusals, n);
            lemma_gathered(all, made, n);
        }
        let bws = convert_backend(config, b, Ghost(n))?;
        proof {
            lemma_views(out@, bws@);
        }
        extend(&mut out, bws);
    }
    assert(all.take(all.len() as int) =~= all);
    Ok(out)
}

// ---------------------------------------------------------------------------------------------
// Groups of routes
// ---------------------------------------------------------------------------------------------

/// The key that the routes of a group have in place of that of a listener.
pub open spec fn group_key(name: Text) -> Text {
    "routegroup/"@ + name
}

/// Why a group of routes is refused, if it is.
pub open spec fn group_refusals(config: GatewayConfig) -> spec_fn(int, LocalRouteGroup) -> Option<
    Text,
> {
    |i: int, g: LocalRouteGroup|
        first_refusal(g.routes@, route_refusals(config, group_key(g.name@)))
}

/// The routes of groups, under the names of the groups.
pub open spec fn groups_made(config: GatewayConfig, groups: Seq<LocalRouteGroup>) -> Seq<
    (Text, Seq<RouteView>),
> {
    groups.map_values(
        |g: LocalRouteGroup| (g.name@, routes_of(config, group_key(g.name@), g.routes@)),
    )
}

/// The backends that the routes of a group make.
pub open spec fn group_backends(config: GatewayConfig) -> spec_fn(int, LocalRouteGroup) -> Seq<
    BackendWithPoliciesView,
> {
    |i: int, g: LocalRouteGroup|
        gathered(g.routes@, route_backends(config, group_key(g.name@)))
}

fn convert_groups(config: &GatewayConfig, groups: Vec<LocalRouteGroup>) -> (r: Result<
    (Vec<(RouteGroupKey, Vec<Route>)>, Vec<BackendWithPolicies>),
    ConfigError,
>)
    ensures
        match r {
            Ok(p) => {
                &&& first_refusal(groups@, group_refusals(*config)) is None
                &&& keyed_views(p.0@) == groups_made(*config, groups@)
                &&& views(p.1@) == gathered(groups@, group_backends(*config))
            },
            Err(e) => first_refusal(groups@, group_refusals(*config)) == Some(e@),
        },
{
    let ghost all = groups@;
    let ghost refusals = group_refusals(*config);
    let ghost made = group_backends(*config);
    let ghost expected = groups_made(*config, all);
    let mut out: Vec<(RouteGroupKey, Vec<Route>)> = Vec::new();
    let mut backends: Vec<BackendWithPolicies> = Vec::new();
    assert(views(backends@) =~= Seq::<BackendWithPoliciesView>::empty());
    for g in it: groups.into_iter()
        invariant
            it.seq() == all,
            refusals == group_refusals(*config),
            made == group_backends(*config),
            expected == groups_made(*config, all),
            first_refusal(all.take(it.index() as int), refusals) is None,
            out@.len() == it.index(),
            forall|j: int|
                0 <= j < it.index() ==> ((#[trigger] out@[j]).0@, views(out@[j].1@))
                    == expected[j],
            views(backends@) == gathered(all.take(it.index() as int), made),
    {
        let ghost n = it.index() as int;
        proof {
            lemma_first_refusal(all, refusals, n);
            lemma_gathered(all, made, n);
        }
        let key = join2("routegroup/", g.name.as_str());
        let (routes, bws) = convert_routes(config, g.routes, key.as_str())?;
        proof {
            lemma_views(backends@, bws@);
        }
        extend(&mut backends, bws);
        out.push((g.name, routes));
    }
    assert(all.take(all.len() as int) =~= all);
    assert(keyed_views(out@) =~= expected);
    Ok((out, backends))
}

// ---------------------------------------------------------------------------------------------
// The whole
// ---------------------------------------------------------------------------------------------

/// Why the models of a configuration are refused, if there are any and they are.
pub open spec fn llm_refusal(config: GatewayConfig, llm: Option<LocalLLMConfig>) -> Option<Text> {
    match llm {
        Some(c) => c.refusal(config, config.model_name_transformation.compiled),
        None => None,
    }
}

/// What the models of a configuration come to, if there are any.
pub open spec fn llm_converted(
    config: GatewayConfig,
    gateway: ListenerTargetView,
    llm: Option<LocalLLMConfig>,
) -> Option<ConvertedBindView> {
    match llm {
        Some(c) => Some(
            c.converted(
                config,
                gateway,
                config.model_name_transformation.compiled,
                config.startup_timestamp,
            ),
        ),
        None => None,
    }
}

/// Why the MCP targets of a configuration are refused, if there are any and they are.
pub open spec fn mcp_refusal(
    config: GatewayConfig,
    mcp: Option<LocalSimpleMcpConfig>,
) -> Option<Text> {
    match mcp {
        Some(c) => c.refusal(config),
        None => None,
    }
}

/// What the MCP targets of a configuration come to, if there are any.
pub open spec fn mcp_converted(
    config: GatewayConfig,
    gateway: ListenerTargetView,
    mcp: Option<LocalSimpleMcpConfig>,
) -> Option<ConvertedBindView> {
    match mcp {
        Some(c) => Some(c.converted(config, gateway)),
        None => None,
    }
}

/// What was converted, and a bind of its own under the given name.
pub open spec fn with_single_bind(
    c: ConvertedView,
    name: Text,
    bind: Option<ConvertedBindView>,
) -> ConvertedView {
    match bind {
        Some(b) => ConvertedView {
            binds: c.binds.push(b.bind),
            listener_routes: c.listener_routes.push((name, b.routes)),
            listener_tcp_routes: c.listener_tcp_routes.push((name, Seq::empty())),
            policies: c.policies + b.policies,
            backends: c.backends + b.backends,
        },
        None => c,
    }
}

/// What was converted, and further policies and backends.
pub open spec fn with_more(
    c: ConvertedView,
    policies: Seq<TargetedPolicyView>,
    backends: Seq<BackendWithPoliciesView>,
) -> ConvertedView {
    ConvertedView { policies: c.policies + policies, backends: c.backends + backends, ..c }
}

impl LocalConfig {
    /// Why the configuration is refused, if it is. The parts are read in this order, and the first
    /// that is refused counts.
    pub open spec fn refusal(self, config: GatewayConfig, gateway: ListenerTargetView) -> Option<
        Text,
    > {
        first_of(
            merge_refusal(config, self.frontend_policies),
            first_of(
                first_refusal(self.binds@, bind_refusals(config, gateway)),
                first_of(
                    first_refusal(self.policies@, policy_refusals(config)),
                    first_of(
                        first_refusal(self.backends@, backend_refusals(config)),
                        first_of(
                            llm_refusal(config, self.llm),
                            first_of(
                                mcp_refusal(config, self.mcp),
                                first_refusal(self.route_groups@, group_refusals(config)),
                            ),
                        ),
                    ),
                ),
            ),
        )
    }

    /// What the configuration comes to, but for the policies of accepted connections and the
    /// backends of groups of routes.
    pub open spec fn converted(
        self,
        config: GatewayConfig,
        gateway: ListenerTargetView,
    ) -> ConvertedView {
        with_single_bind(
            with_single_bind(
                with_more(
                    binds_converted(config, gateway, self.binds@),
                    policies_attached(config, self.policies@),
                    gathered(self.backends@, named_backends(config)),
                ),
                "llm"@,
                llm_converted(config, gateway, self.llm),
            ),
            "mcp"@,
            mcp_converted(config, gateway, self.mcp),
        )
    }
}

/// Whether a configuration comes to this.
pub open spec fn normalizes(
    i: LocalConfig,
    config: GatewayConfig,
    gateway: ListenerTargetView,
    r: NormalizedLocalConfig,
) -> bool {
    let c = i.converted(config, gateway);
    &&& views(r.binds@) == c.binds
    &&& keyed_views(r.listener_routes@) == c.listener_routes
    &&& keyed_views(r.listener_tcp_routes@) == c.listener_tcp_routes
    &&& exists|frontend: LocalFrontendPolicies| #[trigger]
        merged_frontend(config, i.frontend_policies, frontend) && views(r.policies@) == c.policies
            + frontend.attached(gateway)
    &&& views(r.backends@) == c.backends + gathered(i.route_groups@, group_backends(config))
    &&& keyed_views(r.route_groups@) == groups_made(config, i.route_groups@)
    &&& r.workloads == i.workloads
    &&& r.services == i.services
}

impl NormalizedLocalConfig {
    /// The listeners of each bind are held under their keys.
    pub open spec fn wf(self) -> bool {
        forall|i: int| 0 <= i < self.binds@.len() ==> (#[trigger] self.binds@[i]).wf()
    }
}

fn add_single_bind(out: Converted, name: &str, c: ConvertedBind) -> (r: Converted)
    requires
        out.wf(),
        c.bind.wf(),
    ensures
        r.wf(),
        r@ == with_single_bind(out@, name@, Some(c@)),
{
    let ghost before = out@;
    let ghost added = c@;
    let Converted { mut binds, mut listener_routes, mut listener_tcp_routes, mut policies, mut backends } =
        out;
    let none: Vec<TCPRoute> = Vec::new();
    proof {
        lemma_views(binds@, Seq::empty());
        lemma_keyed_views(listener_routes@, Seq::empty());
        lemma_keyed_views(listener_tcp_routes@, Seq::empty());
        lemma_views(policies@, c.policies@);
        lemma_views(backends@, c.backends@);
        assert(views(none@) =~= Seq::<TCPRouteView>::empty());
    }
    binds.push(c.bind);
    listener_routes.push((name.to_owned(), c.routes));
    listener_tcp_routes.push((name.to_owned(), none));
    extend(&mut policies, c.policies);
    extend(&mut backends, c.backends);
    let r = Converted { binds, listener_routes, listener_tcp_routes, policies, backends };
    assert(r@ =~= with_single_bind(before, name@, Some(added)));
    r
}

fn add_more(
    out: Converted,
    policies: Vec<TargetedPolicy>,
    backends: Vec<BackendWithPolicies>,
) -> (r: Converted)
    requires
        out.wf(),
    ensures
        r.wf(),
        r@ == with_more(out@, views(policies@), views(backends@)),
{
    let ghost before = out@;
    let ghost p = views(policies@);
    let ghost b = views(backends@);
    proof {
        lemma_views(out.policies@, policies@);
        lemma_views(out.backends@, backends@);
    }
    let mut all_policies = out.policies;
    let mut all_backends = out.backends;
    extend(&mut all_policies, policies);
    extend(&mut all_backends, backends);
    let r = Converted {
        binds: out.binds,
        listener_routes: out.listener_routes,
        listener_tcp_routes: out.listener_tcp_routes,
        policies: all_policies,
        backends: all_backends,
    };
    assert(r@ =~= with_more(before, p, b));
    r
}

/// What a configuration of the gateway comes to.
pub fn convert(gateway: &ListenerTarget, config: &GatewayConfig, i: LocalConfig) -> (r: Result<
    NormalizedLocalConfig,
    ConfigError,
>)
    requires
        config.wf(),
    ensures
        match r {
            Ok(n) => {
                &&& i.refusal(*config, gateway@) is None
                &&& n.wf()
                &&& normalizes(i, *config, gateway@, n)
            },
            Err(e) => i.refusal(*config, gateway@) == Some(e@),
        },
{
    let ghost given = i;
    let frontend = merge_deprecated_frontend_policies(config, i.frontend_policies)?;
    let ghost merged = frontend;
    let out = convert_binds(config, gateway, i.binds)?;
    let policies = convert_policies(config, i.policies)?;
    let backends = convert_backends(config, i.backends)?;
    let mut out = add_more(out, policies, backends);
    match i.llm {
        Some(c) => {
            let made = convert_llm_config(
                config,
                gateway,
                c,
                match &config.model_name_transformation.compiled {
                    Ok(t) => Ok(t.clone()),
                    Err(e) => Err(e.clone()),
                },
                config.startup_timestamp,
            )?;
            out = add_single_bind(out, "llm", made);
        },
        None => {},
    }
    match i.mcp {
        Some(c) => {
            let made = convert_mcp_config(config, gateway, c)?;
            out = add_single_bind(out, "mcp", made);
        },
        None => {},
    }
    let (route_groups, group_backends) = convert_groups(config, i.route_groups)?;
    assert(out@ == given.converted(*config, gateway@));
    let frontend_policies = split_frontend_policies(gateway, frontend);
    let out = add_more(out, frontend_policies, group_backends);
    let r = NormalizedLocalConfig {
        binds: out.binds,
        listener_routes: out.listener_routes,
        listener_tcp_routes: out.listener_tcp_routes,
        policies: out.policies,
        backends: out.backends,
        route_groups,
        workloads: i.workloads,
        services: i.services,
    };
    assert(merged_frontend(*config, given.frontend_policies, merged));
    Ok(r)
}

} // verus!
