//! Routes, as a configuration writes them.

use vstd::prelude::*;

use crate::local::backends::{
    local_key, local_name, local_name_of, LocalBackend, SimpleLocalBackend,
};
use crate::local::config::GatewayConfig;
use crate::local::error::{
    extend, first_refusal, gathered, lemma_first_refusal, lemma_gathered, load, load_refusal,
    loaded, one, ConfigError, Loaded,
};
use crate::local::policies::{
    backend_policies, backend_refusal, inference_refusal, translate_backend_policies,
    validate_inference_routing_scope, InferenceRoutingScope, LocalBackendPolicies,
    LocalTCPBackendPolicies,
};
use crate::local::split::{no_policies, split_policies, FilterOrPolicy};
use crate::text::{decimal, join2, join3, join5, lemma_views, texts, to_decimal, views, Text};
use crate::types::agent::{
    prefix_match, BackendReference, BackendReferenceView, BackendWithPolicies,
    BackendWithPoliciesView, Route, RouteBackendReference, RouteBackendReferenceView,
    RouteBackendTarget, RouteBackendTargetView, RouteMatch, RouteName, RouteNameView, RouteView,
    SimpleBackendReference, SimpleBackendReferenceView, TCPRoute, TCPRouteBackendReference,
    TCPRouteBackendReferenceView, TCPRouteView, TargetedPolicy,
};
use crate::types::policy::{first_of, PolicyBody, PolicyId, PolicyIdView};
use crate::types::traffic::{share_policies, BackendTrafficPolicy, TrafficPolicyView};

verus! {

/// The share of requests that a backend gets where nothing is set.
pub fn default_weight() -> (r: usize)
    ensures
        r == 1,
{
    1
}

/// The requests that a route takes where nothing is set: all of them.
pub fn default_matches() -> (r: Vec<RouteMatch>)
    ensures
        views(r@) == seq![prefix_match("/"@)],
{
    let r = vec![RouteMatch::prefix("/")];
    assert(views(r@) =~= seq![prefix_match("/"@)]);
    r
}

/// The name of a route, as far as it is set.
#[derive(Debug)]
pub struct LocalRouteName {
    pub name: Option<String>,
    pub namespace: Option<String>,
    pub rule_name: Option<String>,
}

/// The name of the route at a place: the one that is set, or one made from the place.
pub open spec fn route_name_of(name: LocalRouteName, prefix: Text, idx: int) -> RouteNameView {
    RouteNameView {
        name: match name.name {
            Some(n) => n@,
            None => prefix + decimal(idx as nat),
        },
        namespace: match name.namespace {
            Some(n) => n@,
            None => "default"@,
        },
        rule_name: None,
        kind: None,
    }
}

/// The key of a route of a listener.
pub open spec fn route_key_of(listener_key: Text, name: RouteNameView) -> Text {
    listener_key + "/"@ + name.namespace + "/"@ + name.name
}

/// The name under which the backend at a place of a route is made.
pub open spec fn backend_key_of(route_key: Text, idx: int) -> Text {
    route_key + "/backend"@ + decimal(idx as nat)
}

fn route_name(name: LocalRouteName, prefix: &str, idx: usize) -> (r: RouteName)
    ensures
        r@ == route_name_of(name, prefix@, idx as int),
{
    RouteName {
        name: match name.name {
            Some(n) => n,
            None => join2(prefix, to_decimal(idx as u64).as_str()),
        },
        namespace: match name.namespace {
            Some(n) => n,
            None => "default".to_owned(),
        },
        rule_name: None,
        kind: None,
    }
}

fn route_key(listener_key: &str, name: &RouteName) -> (r: String)
    ensures
        r@ == route_key_of(listener_key@, name@),
{
    join5(listener_key, "/", name.namespace.as_str(), "/", name.name.as_str())
}

fn backend_key(key: &str, idx: usize) -> (r: String)
    ensures
        r@ == backend_key_of(key@, idx as int),
{
    join3(key, "/backend", to_decimal(idx as u64).as_str())
}

// ---------------------------------------------------------------------------------------------
// HTTP routes
// ---------------------------------------------------------------------------------------------

/// A backend of a route.
#[derive(Debug)]
pub struct LocalRouteBackend {
    pub weight: usize,
    pub backend: LocalBackend,
    pub policies: Option<LocalBackendPolicies>,
}

/// A route.
#[derive(Debug)]
pub struct LocalRoute {
    pub name: LocalRouteName,
    /// Can be wildcards.
    pub hostnames: Vec<String>,
    pub matches: Vec<RouteMatch>,
    pub policies: Option<FilterOrPolicy>,
    pub backends: Vec<LocalRouteBackend>,
}

/// Where the policies of a backend of a route stand.
pub open spec fn route_backend_scope(backend: LocalBackend) -> InferenceRoutingScope {
    if backend is Service {
        InferenceRoutingScope::ServiceRouteBackend
    } else {
        InferenceRoutingScope::NonServiceRouteBackend
    }
}

/// Why a backend of a route is refused, if it is.
pub open spec fn route_backend_refusals(default_tls: Loaded<PolicyBody>) -> spec_fn(
    int,
    LocalRouteBackend,
) -> Option<Text> {
    |i: int, b: LocalRouteBackend|
        first_of(
            inference_refusal(b.policies, route_backend_scope(b.backend)),
            first_of(backend_refusal(b.policies), b.backend.refusal(default_tls)),
        )
}

/// What a route refers to for the backend at a place: what is written in place is referred to by
/// the name under which it is made.
pub open spec fn route_backend_target(
    key: Text,
    idx: int,
    backend: LocalBackend,
) -> RouteBackendTargetView {
    match backend {
        LocalBackend::RouteGroup(rg) => RouteBackendTargetView::RouteGroup(rg@),
        LocalBackend::Service { name, port } => RouteBackendTargetView::Backend(
            BackendReferenceView::Service { name: name@, port },
        ),
        LocalBackend::Backend(n) => RouteBackendTargetView::Backend(
            BackendReferenceView::Backend(n@),
        ),
        LocalBackend::Invalid => RouteBackendTargetView::Backend(BackendReferenceView::Invalid),
        _ => RouteBackendTargetView::Backend(
            BackendReferenceView::Backend(local_key(backend_key_of(key, idx))),
        ),
    }
}

/// The backends that are made for the backend at a place.
pub open spec fn route_backend_made(
    config: GatewayConfig,
    key: Text,
) -> spec_fn(int, LocalRouteBackend) -> Seq<BackendWithPoliciesView> {
    |i: int, b: LocalRouteBackend|
        b.backend.backends(
            local_name_of(backend_key_of(key, i)),
            config.default_backend_tls,
            config.mcp_session_ttl,
        )
}

/// The policies of a route that its backends get.
pub open spec fn route_backend_rules(policies: Option<FilterOrPolicy>) -> Seq<
    BackendTrafficPolicy,
> {
    match policies {
        Some(p) => p.backend_rules(),
        None => Seq::empty(),
    }
}

/// The reference of a route to the backend at a place, with the policies of the backend and then
/// those that the route gives to all of its backends.
pub open spec fn route_backend_reference(
    key: Text,
    idx: int,
    b: LocalRouteBackend,
    shared: Seq<BackendTrafficPolicy>,
) -> RouteBackendReferenceView {
    RouteBackendReferenceView {
        weight: b.weight,
        target: route_backend_target(key, idx, b.backend),
        inline_policies: views(backend_policies(b.policies) + shared),
    }
}

/// The references of a route to its backends.
pub open spec fn route_backend_references(
    key: Text,
    backends: Seq<LocalRouteBackend>,
    shared: Seq<BackendTrafficPolicy>,
) -> Seq<RouteBackendReferenceView> {
    backends.map(|i: int, b: LocalRouteBackend| route_backend_reference(key, i, b, shared))
}

impl LocalRoute {
    /// The name of the route at a place.
    pub open spec fn route_name(self, idx: int) -> RouteNameView {
        route_name_of(self.name, "route"@, idx)
    }

    /// The key of the route at a place.
    pub open spec fn key(self, idx: int, listener_key: Text) -> Text {
        route_key_of(listener_key, self.route_name(idx))
    }

    /// Why the route is refused, if it is: the first of its backends that is, or its policies.
    pub open spec fn refusal(
        self,
        config: GatewayConfig,
        idx: int,
        listener_key: Text,
    ) -> Option<Text> {
        first_of(
            first_refusal(self.backends@, route_backend_refusals(config.default_backend_tls)),
            match self.policies {
                Some(p) => p.refusal(
                    Some(config.context_of(PolicyIdView::Route(self.key(idx, listener_key)))),
                ),
                None => None,
            },
        )
    }

    /// The policies of the requests of the route.
    pub open spec fn rules(self, config: GatewayConfig, idx: int, listener_key: Text) -> Seq<
        TrafficPolicyView,
    > {
        match self.policies {
            Some(p) => p.route_rules(
                Some(config.context_of(PolicyIdView::Route(self.key(idx, listener_key)))),
            ),
            None => Seq::empty(),
        }
    }

    /// The route that is made.
    pub open spec fn route(self, config: GatewayConfig, idx: int, listener_key: Text) -> RouteView {
        let key = self.key(idx, listener_key);
        RouteView {
            key,
            service_key: None,
            name: self.route_name(idx),
            hostnames: texts(self.hostnames@),
            matches: views(self.matches@),
            inline_policies: self.rules(config, idx, listener_key),
            backends: route_backend_references(
                key,
                self.backends@,
                route_backend_rules(self.policies),
            ),
        }
    }

    /// The backends that are made for those that the route writes in place.
    pub open spec fn made(self, config: GatewayConfig, idx: int, listener_key: Text) -> Seq<
        BackendWithPoliciesView,
    > {
        gathered(self.backends@, route_backend_made(config, self.key(idx, listener_key)))
    }
}

fn backend_target(key: &str, idx: usize, backend: &LocalBackend) -> (r: RouteBackendTarget)
    ensures
        r@ == route_backend_target(key@, idx as int, *backend),
{
    match backend {
        LocalBackend::RouteGroup(rg) => RouteBackendTarget::RouteGroup(rg.clone()),
        LocalBackend::Service { name, port } => RouteBackendTarget::Backend(
            BackendReference::Service { name: name.copy(), port: *port },
        ),
        LocalBackend::Backend(n) => RouteBackendTarget::Backend(
            BackendReference::Backend(n.clone()),
        ),
        LocalBackend::Invalid => RouteBackendTarget::Backend(BackendReference::Invalid),
        _ => RouteBackendTarget::Backend(
            BackendReference::Backend(join2("/", backend_key(key, idx).as_str())),
        ),
    }
}

fn convert_backends(config: &GatewayConfig, key: &str, backends: Vec<LocalRouteBackend>) -> (r:
    Result<(Vec<RouteBackendReference>, Vec<BackendWithPolicies>), ConfigError>)
    ensures
        match r {
            Ok(p) => {
                &&& first_refusal(
                    backends@,
                    route_backend_refusals(config.default_backend_tls),
                ) is None
                &&& p.0@.len() == backends@.len()
                &&& forall|i: int|
                    0 <= i < backends@.len() ==> {
                        &&& (#[trigger] p.0@[i]).weight == backends@[i].weight
                        &&& p.0@[i].target@ == route_backend_target(key@, i, backends@[i].backend)
                        &&& p.0@[i].inline_policies@ == backend_policies(backends@[i].policies)
                    }
                &&& views(p.1@) == gathered(backends@, route_backend_made(*config, key@))
            },
            Err(e) => first_refusal(
                backends@,
                route_backend_refusals(config.default_backend_tls),
            ) == Some(e@),
        },
{
    let ghost all = backends@;
    let ghost refusals = route_backend_refusals(config.default_backend_tls);
    let ghost made_of = route_backend_made(*config, key@);
    let mut refs: Vec<RouteBackendReference> = Vec::new();
    let mut made: Vec<BackendWithPolicies> = Vec::new();
    assert(views(made@) =~= Seq::<BackendWithPoliciesView>::empty());
    for b in it: backends.into_iter()
        invariant
            it.seq() == all,
            refusals == route_backend_refusals(config.default_backend_tls),
            made_of == route_backend_made(*config, key@),
            first_refusal(all.take(it.index() as int), refusals) is None,
            refs@.len() == it.index(),
            forall|i: int|
                0 <= i < it.index() ==> {
                    &&& (#[trigger] refs@[i]).weight == all[i].weight
                    &&& refs@[i].target@ == route_backend_target(key@, i, all[i].backend)
                    &&& refs@[i].inline_policies@ == backend_policies(all[i].policies)
                },
            views(made@) == gathered(all.take(it.index() as int), made_of),
    {
        let ghost n = it.index() as int;
        proof {
            lemma_first_refusal(all, refusals, n);
            lemma_gathered(all, made_of, n);
        }
        let idx: usize = refs.len();
        let scope = match &b.backend {
            LocalBackend::Service { .. } => InferenceRoutingScope::ServiceRouteBackend,
            _ => InferenceRoutingScope::NonServiceRouteBackend,
        };
        validate_inference_routing_scope(&b.policies, scope)?;
        let inline_policies = translate_backend_policies(b.policies)?;
        let target = backend_target(key, idx, &b.backend);
        let name = local_name(backend_key(key, idx));
        let backends = b.backend.as_backends(
            name,
            &config.default_backend_tls,
            config.mcp_session_ttl,
        )?;
        refs.push(RouteBackendReference { weight: b.weight, target, inline_policies });
        proof {
            lemma_views(made@, backends@);
        }
        extend(&mut made, backends);
    }
    assert(all.take(all.len() as int) =~= all);
    Ok((refs, made))
}

/// The route that a configuration writes at a place of a listener, and the backends that it writes
/// in place.
pub fn convert_route(
    config: &GatewayConfig,
    lr: LocalRoute,
    idx: usize,
    listener_key: &str,
) -> (r: Result<(Route, Vec<BackendWithPolicies>), ConfigError>)
    ensures
        match r {
            Ok(p) => {
                &&& lr.refusal(*config, idx as int, listener_key@) is None
                &&& p.0@ == lr.route(*config, idx as int, listener_key@)
                &&& p.0.hostnames == lr.hostnames
                &&& p.0.matches == lr.matches
                &&& p.0.service_key is None
                &&& p.0.backends@.len() == lr.backends@.len()
                &&& views(p.1@) == lr.made(*config, idx as int, listener_key@)
            },
            Err(e) => lr.refusal(*config, idx as int, listener_key@) == Some(e@),
        },
{
    let ghost given = lr;
    let name = route_name(lr.name, "route", idx);
    let key = route_key(listener_key, &name);
    let (refs, made) = convert_backends(config, key.as_str(), lr.backends)?;
    let resolved = match lr.policies {
        Some(pol) => split_policies(
            pol,
            Some(config.policy_context(PolicyId::Route(key.clone()))),
        )?,
        None => no_policies(),
    };
    let ghost shared = route_backend_rules(given.policies);
    assert(resolved.backend_policies@ =~= shared);
    assert(views(resolved.route_policies@) =~= given.rules(*config, idx as int, listener_key@));
    let ghost all = refs@;
    let ghost expected = route_backend_references(key@, given.backends@, shared);
    let mut backends: Vec<RouteBackendReference> = Vec::new();
    for br in it: refs.into_iter()
        invariant
            it.seq() == all,
            all.len() == given.backends@.len(),
            resolved.backend_policies@ == shared,
            expected == route_backend_references(key@, given.backends@, shared),
            forall|i: int|
                0 <= i < all.len() ==> {
                    &&& (#[trigger] all[i]).weight == given.backends@[i].weight
                    &&& all[i].target@ == route_backend_target(key@, i, given.backends@[i].backend)
                    &&& all[i].inline_policies@ == backend_policies(given.backends@[i].policies)
                },
            backends@.len() == it.index(),
            forall|i: int| 0 <= i < it.index() ==> (#[trigger] backends@[i])@ == expected[i],
    {
        let ghost n = it.index() as int;
        assert(br == all[n]);
        let mut inline_policies = br.inline_policies;
        extend(&mut inline_policies, share_policies(&resolved.backend_policies));
        backends.push(
            RouteBackendReference { weight: br.weight, target: br.target, inline_policies },
        );
    }
    assert(views(backends@) =~= expected);
    let route = Route {
        key,
        service_key: None,
        name,
        hostnames: lr.hostnames,
        matches: lr.matches,
        inline_policies: resolved.route_policies,
        backends,
    };
    Ok((route, made))
}

// ---------------------------------------------------------------------------------------------
// TCP routes
// ---------------------------------------------------------------------------------------------

/// A backend of a TCP route.
#[derive(Debug)]
pub struct LocalTCPRouteBackend {
    pub weight: usize,
    pub backend: SimpleLocalBackend,
    pub policies: Option<LocalTCPBackendPolicies>,
}

/// The policies of a TCP route.
#[derive(Debug)]
pub struct TCPFilterOrPolicy {
    pub backend_tls: Option<Loaded<PolicyBody>>,
}

/// A TCP route.
#[derive(Debug)]
pub struct LocalTCPRoute {
    pub name: LocalRouteName,
    /// Can be wildcards.
    pub hostnames: Vec<String>,
    pub policies: Option<TCPFilterOrPolicy>,
    pub backends: Vec<LocalTCPRouteBackend>,
}

/// Why a backend of a TCP route is refused, if it is.
pub open spec fn tcp_backend_refusals() -> spec_fn(int, LocalTCPRouteBackend) -> Option<Text> {
    |i: int, b: LocalTCPRouteBackend|
        match b.policies {
            Some(p) => load_refusal(p.backend_tls),
            None => None,
        }
}

/// What a TCP route refers to for the backend at a place.
pub open spec fn tcp_backend_target(
    key: Text,
    idx: int,
    backend: SimpleLocalBackend,
) -> SimpleBackendReferenceView {
    match backend {
        SimpleLocalBackend::Service { name, port } => SimpleBackendReferenceView::Service {
            name: name@,
            port,
        },
        SimpleLocalBackend::Backend(n) => SimpleBackendReferenceView::Backend(n@),
        SimpleLocalBackend::Invalid => SimpleBackendReferenceView::Invalid,
        SimpleLocalBackend::Opaque(_) => SimpleBackendReferenceView::Backend(
            local_key(backend_key_of(key, idx)),
        ),
    }
}

/// The policies of a backend of a TCP route.
pub open spec fn tcp_backend_policies(policies: Option<LocalTCPBackendPolicies>) -> Seq<
    BackendTrafficPolicy,
> {
    match policies {
        Some(p) => p.policies(),
        None => Seq::empty(),
    }
}

/// The backends that are made for the backend at a place of a TCP route.
pub open spec fn tcp_backend_made(key: Text) -> spec_fn(int, LocalTCPRouteBackend) -> Seq<
    BackendWithPoliciesView,
> {
    |i: int, b: LocalTCPRouteBackend|
        one(
            match b.backend.made(local_name_of(backend_key_of(key, i))) {
                Some(backend) => Some(
                    BackendWithPoliciesView {
                        backend,
                        inline_policies: if b.backend is Invalid {
                            Seq::empty()
                        } else {
                            views(tcp_backend_policies(b.policies))
                        },
                    },
                ),
                None => None,
            },
        )
}

impl LocalTCPRoute {
    /// The name of the route at a place.
    pub open spec fn route_name(self, idx: int) -> RouteNameView {
        route_name_of(self.name, "tcproute"@, idx)
    }

    /// The key of the route at a place.
    pub open spec fn key(self, idx: int, listener_key: Text) -> Text {
        route_key_of(listener_key, self.route_name(idx))
    }

    /// The settings of TLS to the backends, if there are any.
    pub open spec fn tls(self) -> Option<Loaded<PolicyBody>> {
        match self.policies {
            Some(p) => p.backend_tls,
            None => None,
        }
    }

    /// Why the route is refused, if it is. Settings of TLS that no backend gets are not looked at.
    pub open spec fn refusal(self) -> Option<Text> {
        first_of(
            first_refusal(self.backends@, tcp_backend_refusals()),
            if self.backends@.len() == 0 {
                None
            } else {
                load_refusal(self.tls())
            },
        )
    }

    /// The reference to the backend at a place.
    pub open spec fn reference(
        self,
        key: Text,
        idx: int,
        b: LocalTCPRouteBackend,
    ) -> TCPRouteBackendReferenceView {
        TCPRouteBackendReferenceView {
            weight: b.weight,
            backend: tcp_backend_target(key, idx, b.backend),
            inline_policies: views(
                one(
                    match loaded(self.tls()) {
                        Some(p) => Some(BackendTrafficPolicy::BackendTLS(p)),
                        None => None,
                    },
                ),
            ),
        }
    }

    /// The route that is made.
    pub open spec fn route(self, idx: int, listener_key: Text) -> TCPRouteView {
        let key = self.key(idx, listener_key);
        TCPRouteView {
            key,
            service_key: None,
            name: self.route_name(idx),
            hostnames: texts(self.hostnames@),
            backends: self.backends@.map(
                |i: int, b: LocalTCPRouteBackend| self.reference(key, i, b),
            ),
        }
    }

    /// The backends that are made for those that the route writes in place.
    pub open spec fn made(self, idx: int, listener_key: Text) -> Seq<BackendWithPoliciesView> {
        gathered(self.backends@, tcp_backend_made(self.key(idx, listener_key)))
    }
}

fn tcp_target(key: &str, idx: usize, backend: &SimpleLocalBackend) -> (r: SimpleBackendReference)
    ensures
        r@ == tcp_backend_target(key@, idx as int, *backend),
{
    match backend {
        SimpleLocalBackend::Service { name, port } => SimpleBackendReference::Service {
            name: name.copy(),
            port: *port,
        },
        SimpleLocalBackend::Backend(n) => SimpleBackendReference::Backend(n.clone()),
        SimpleLocalBackend::Invalid => SimpleBackendReference::Invalid,
        SimpleLocalBackend::Opaque(_) => SimpleBackendReference::Backend(
            join2("/", backend_key(key, idx).as_str()),
        ),
    }
}

/// The TCP route that a configuration writes at a place of a listener, and the backends that it
/// writes in place. It has no policies of its own to attach.
pub fn convert_tcp_route(lr: LocalTCPRoute, idx: usize, listener_key: &str) -> (r: Result<
    (TCPRoute, Vec<TargetedPolicy>, Vec<BackendWithPolicies>),
    ConfigError,
>)
    ensures
        match r {
            Ok(p) => {
                &&& lr.refusal() is None
                &&& p.0@ == lr.route(idx as int, listener_key@)
                &&& p.0.hostnames == lr.hostnames
                &&& p.0.service_key is None
                &&& p.0.backends@.len() == lr.backends@.len()
                &&& p.1@.len() == 0
                &&& views(p.2@) == lr.made(idx as int, listener_key@)
            },
            Err(e) => lr.refusal() == Some(e@),
        },
{
    let ghost given = lr;
    let name = route_name(lr.name, "tcproute", idx);
    let key = route_key(listener_key, &name);
    let ghost all = lr.backends@;
    let ghost made_of = tcp_backend_made(key@);
    let mut refs: Vec<(usize, SimpleBackendReference)> = Vec::new();
    let mut made: Vec<BackendWithPolicies> = Vec::new();
    assert(views(made@) =~= Seq::<BackendWithPoliciesView>::empty());
    for b in it: lr.backends.into_iter()
        invariant
            it.seq() == all,
            made_of == tcp_backend_made(key@),
            given.backends@ == all,
            first_refusal(all.take(it.index() as int), tcp_backend_refusals()) is None,
            refs@.len() == it.index(),
            forall|i: int|
                0 <= i < it.index() ==> (#[trigger] refs@[i]).0 == all[i].weight && refs@[i].1@
                    == tcp_backend_target(key@, i, all[i].backend),
            views(made@) == gathered(all.take(it.index() as int), made_of),
    {
        let ghost n = it.index() as int;
        proof {
            lemma_first_refusal(all, tcp_backend_refusals(), n);
            lemma_gathered(all, made_of, n);
        }
        let idx: usize = refs.len();
        let policies = match b.policies {
            Some(p) => p.translate()?,
            None => Vec::new(),
        };
        assert(policies@ =~= tcp_backend_policies(all[n].policies));
        let target = tcp_target(key.as_str(), idx, &b.backend);
        let name = local_name(backend_key(key.as_str(), idx));
        let backend = match b.backend.as_backends(name, policies) {
            Some(be) => Some(be.into_backend()),
            None => None,
        };
        refs.push((b.weight, target));
        crate::local::error::add_opt(&mut made, backend);
    }
    assert(all.take(all.len() as int) =~= all);
    let tls = match lr.policies {
        Some(pol) => pol.backend_tls,
        None => None,
    };
    let tls = if refs.len() == 0 {
        None
    } else {
        load(tls)?
    };
    let ghost targets = refs@;
    let ghost expected = given.route(idx as int, listener_key@).backends;
    let mut backends: Vec<TCPRouteBackendReference> = Vec::new();
    for br in it: refs.into_iter()
        invariant
            it.seq() == targets,
            targets.len() == all.len(),
            all == given.backends@,
            all.len() > 0 ==> tls == loaded(given.tls()),
            expected == all.map(|i: int, b: LocalTCPRouteBackend| given.reference(key@, i, b)),
            forall|i: int|
                0 <= i < all.len() ==> (#[trigger] targets[i]).0 == all[i].weight && targets[i].1@
                    == tcp_backend_target(key@, i, all[i].backend),
            backends@.len() == it.index(),
            forall|i: int| 0 <= i < it.index() ==> (#[trigger] backends@[i])@ == expected[i],
    {
        let ghost n = it.index() as int;
        assert(br == targets[n]);
        let mut inline_policies: Vec<BackendTrafficPolicy> = Vec::new();
        match &tls {
            Some(p) => {
                inline_policies.push(BackendTrafficPolicy::BackendTLS(p.clone()));
            },
            None => {},
        }
        assert(inline_policies@ =~= one(
            match loaded(given.tls()) {
                Some(p) => Some(BackendTrafficPolicy::BackendTLS(p)),
                None => None,
            },
        ));
        backends.push(
            TCPRouteBackendReference { weight: br.0, backend: br.1, inline_policies },
        );
    }
    assert(views(backends@) =~= expected);
    let route = TCPRoute {
        key,
        service_key: None,
        name,
        hostnames: lr.hostnames,
        backends,
    };
    Ok((route, Vec::new(), made))
}

} // verus!
