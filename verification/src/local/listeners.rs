//! Listeners, as a configuration writes them.

use vstd::prelude::*;

use crate::local::config::GatewayConfig;
use crate::local::error::{
    extend, first_refusal, gathered, lemma_first_refusal, lemma_gathered, ConfigError, Loaded,
};
use crate::local::routes::{convert_route, convert_tcp_route, LocalRoute, LocalTCPRoute};
use crate::local::split::{split_policies, FilterOrPolicy, LocalGatewayPolicy};
use crate::text::{decimal, join2, join3, join5, lemma_views, texts, to_decimal, views, Text};
use crate::types::agent::{
    opt_texts, BackendWithPolicies, BackendWithPoliciesView, BindProtocol, Listener, ListenerName,
    ListenerNameView, ListenerProtocol, ListenerProtocolView, ListenerSet, ListenerTarget,
    ListenerTargetView, ListenerView, PolicyTarget, PolicyTargetView, Route, RouteView,
    ServerTLSConfig, ServerTLSConfigView, TCPRoute, TCPRouteView, TLSVersion, TargetedPolicy,
    TargetedPolicyView,
};
use crate::types::policy::{first_of, PolicyId, PolicyIdView};
use crate::types::traffic::{
    PolicyPhase, PolicyType, PolicyTypeView, TrafficPolicy, TrafficPolicyView,
};

verus! {

// ---------------------------------------------------------------------------------------------
// TLS
// ---------------------------------------------------------------------------------------------

/// The files and settings with which a listener terminates TLS.
#[derive(Debug)]
pub struct LocalTLSServerConfig {
    /// The path of the certificate.
    pub cert: String,
    /// The path of the key.
    pub key: String,
    /// The path of the certificates that clients are checked against.
    pub root: Option<String>,
    /// Optional cipher suite allowlist. The order is kept.
    pub cipher_suites: Option<Vec<String>>,
    /// Minimum supported TLS version.
    pub min_tls_version: Option<TLSVersion>,
    /// Maximum supported TLS version.
    pub max_tls_version: Option<TLSVersion>,
    /// Key exchange groups allowed for negotiating TLS.
    pub key_exchange_groups: Option<Vec<String>>,
}

/// What reading a file came to.
pub type FileRead = Result<Vec<u8>, String>;

/// Why a file is refused, if it could not be read.
pub open spec fn read_refusal(read: FileRead) -> Option<Text> {
    match read {
        Err(e) => Some(e@),
        Ok(_) => None,
    }
}

impl LocalTLSServerConfig {
    /// The settings of the listener, from what reading the files came to. Clients can ask for
    /// HTTP/2 and for HTTP/1.1, in this order. The first file that could not be read counts.
    pub fn into_server_config(
        self,
        cert: FileRead,
        key: FileRead,
        root: Option<FileRead>,
    ) -> (r: Result<ServerTLSConfig, ConfigError>)
        ensures
            match r {
                Ok(c) => {
                    &&& cert is Ok && key is Ok && !(root matches Some(Err(_)))
                    &&& c@ == (ServerTLSConfigView {
                        cert: cert->Ok_0@,
                        key: key->Ok_0@,
                        root: match root {
                            Some(r) => Some(r->Ok_0@),
                            None => None,
                        },
                        alpn: seq!["h2"@, "http/1.1"@],
                        min_version: self.min_tls_version,
                        max_version: self.max_tls_version,
                        cipher_suites: opt_texts(self.cipher_suites),
                        key_exchange_groups: opt_texts(self.key_exchange_groups),
                    })
                },
                Err(e) => Some(e@) == first_of(
                    read_refusal(cert),
                    first_of(
                        read_refusal(key),
                        match root {
                            Some(r) => read_refusal(r),
                            None => None,
                        },
                    ),
                ),
            },
    {
        let cert = match cert {
            Ok(c) => c,
            Err(e) => {
                return Err(ConfigError::of(e));
            },
        };
        let key = match key {
            Ok(k) => k,
            Err(e) => {
                return Err(ConfigError::of(e));
            },
        };
        let root = match root {
            Some(Ok(r)) => Some(r),
            Some(Err(e)) => {
                return Err(ConfigError::of(e));
            },
            None => None,
        };
        let alpn = vec!["h2".to_owned(), "http/1.1".to_owned()];
        assert(texts(alpn@) =~= seq!["h2"@, "http/1.1"@]);
        Ok(
            ServerTLSConfig {
                cert,
                key,
                root,
                alpn,
                min_version: self.min_tls_version,
                max_version: self.max_tls_version,
                cipher_suites: self.cipher_suites,
                key_exchange_groups: self.key_exchange_groups,
            },
        )
    }
}

// ---------------------------------------------------------------------------------------------
// Listeners
// ---------------------------------------------------------------------------------------------

/// The name of a listener, as far as it is set.
#[derive(Debug)]
pub struct LocalListenerName {
    pub name: Option<String>,
    pub namespace: Option<String>,
}

/// The protocol of a listener.
#[derive(Debug, Clone, Copy, PartialEq, Eq, Structural)]
pub enum LocalListenerProtocol {
    HTTP,
    HTTPS,
    TLS,
    TCP,
    HBONE,
}

/// A listener. `tls` is what loading its files came to.
#[derive(Debug)]
pub struct LocalListener {
    pub name: LocalListenerName,
    /// Can be a wildcard.
    pub hostname: Option<String>,
    pub protocol: LocalListenerProtocol,
    pub tls: Option<Loaded<ServerTLSConfig>>,
    pub routes: Option<Vec<LocalRoute>>,
    pub tcp_routes: Option<Vec<LocalTCPRoute>>,
    pub policies: Option<LocalGatewayPolicy>,
}

/// What a listener comes to.
#[derive(Debug)]
pub struct ConvertedListener {
    pub listener: Listener,
    pub routes: Vec<Route>,
    pub tcp_routes: Vec<TCPRoute>,
    pub policies: Vec<TargetedPolicy>,
    pub backends: Vec<BackendWithPolicies>,
}

/// What a [`ConvertedListener`] holds.
#[verifier::ext_equal]
pub struct ConvertedListenerView {
    pub listener: ListenerView,
    pub routes: Seq<RouteView>,
    pub tcp_routes: Seq<TCPRouteView>,
    pub policies: Seq<TargetedPolicyView>,
    pub backends: Seq<BackendWithPoliciesView>,
}

impl View for ConvertedListener {
    type V = ConvertedListenerView;

    open spec fn view(&self) -> ConvertedListenerView {
        ConvertedListenerView {
            listener: self.listener@,
            routes: views(self.routes@),
            tcp_routes: views(self.tcp_routes@),
            policies: views(self.policies@),
            backends: views(self.backends@),
        }
    }
}

/// The routes of a list that may be absent.
pub open spec fn listed<T>(list: Option<Vec<T>>) -> Seq<T> {
    match list {
        Some(l) => l@,
        None => Seq::empty(),
    }
}

fn list_of<T>(list: Option<Vec<T>>) -> (r: Vec<T>)
    ensures
        r@ == listed(list),
{
    match list {
        Some(l) => l,
        None => {
            let none: Vec<T> = Vec::new();
            assert(none@ =~= Seq::<T>::empty());
            none
        },
    }
}

/// Why a route of a listener is refused, if it is.
pub open spec fn route_refusals(config: GatewayConfig, key: Text) -> spec_fn(
    int,
    LocalRoute,
) -> Option<Text> {
    |i: int, l: LocalRoute| l.refusal(config, i, key)
}

/// The backends that a route of a listener makes.
pub open spec fn route_backends(config: GatewayConfig, key: Text) -> spec_fn(
    int,
    LocalRoute,
) -> Seq<BackendWithPoliciesView> {
    |i: int, l: LocalRoute| l.made(config, i, key)
}

/// The routes of a listener.
pub open spec fn routes_of(config: GatewayConfig, key: Text, routes: Seq<LocalRoute>) -> Seq<
    RouteView,
> {
    routes.map(|i: int, l: LocalRoute| l.route(config, i, key))
}

/// Why a TCP route of a listener is refused, if it is.
pub open spec fn tcp_route_refusals() -> spec_fn(int, LocalTCPRoute) -> Option<Text> {
    |i: int, l: LocalTCPRoute| l.refusal()
}

/// The backends that a TCP route of a listener makes.
pub open spec fn tcp_route_backends(key: Text) -> spec_fn(int, LocalTCPRoute) -> Seq<
    BackendWithPoliciesView,
> {
    |i: int, l: LocalTCPRoute| l.made(i, key)
}

/// The TCP routes of a listener.
pub open spec fn tcp_routes_of(key: Text, routes: Seq<LocalTCPRoute>) -> Seq<TCPRouteView> {
    routes.map(|i: int, l: LocalTCPRoute| l.route(i, key))
}

/// The listener as a target of policies.
pub open spec fn listener_target(name: ListenerNameView) -> PolicyTargetView {
    PolicyTargetView::Gateway(
        ListenerTargetView {
            gateway_name: name.gateway_name,
            gateway_namespace: name.gateway_namespace,
            listener_name: Some(name.listener_name),
            port: None,
        },
    )
}

/// The policies that are attached to a listener, each under a key made from its place, counted from
/// `first`.
pub open spec fn attached_policies(
    prefix: Text,
    first: int,
    target: PolicyTargetView,
    rules: Seq<TrafficPolicyView>,
    phase: PolicyPhase,
) -> Seq<TargetedPolicyView> {
    rules.map(
        |i: int, p: TrafficPolicyView|
            TargetedPolicyView {
                key: prefix + decimal((first + i) as nat),
                name: None,
                target,
                policy: PolicyTypeView::Traffic(p, phase),
            },
    )
}

/// Attaches policies to a listener, each under a key made from its place, counted from `first`.
pub fn attach_policies(
    out: &mut Vec<TargetedPolicy>,
    prefix: &str,
    first: usize,
    name: &ListenerName,
    rules: Vec<TrafficPolicy>,
    phase: PolicyPhase,
)
    requires
        first + rules@.len() <= usize::MAX,
    ensures
        views(final(out)@) == views(old(out)@) + attached_policies(
            prefix@,
            first as int,
            listener_target(name@),
            views(rules@),
            phase,
        ),
{
    let ghost all = rules@;
    let ghost before = views(out@);
    let ghost expected = attached_policies(
        prefix@,
        first as int,
        listener_target(name@),
        views(all),
        phase,
    );
    let mut i: usize = 0;
    assert(before + expected.take(0) =~= before);
    for p in it: rules.into_iter()
        invariant
            it.seq() == all,
            i == it.index(),
            first + all.len() <= usize::MAX,
            expected == attached_policies(
                prefix@,
                first as int,
                listener_target(name@),
                views(all),
                phase,
            ),
            views(out@) == before + expected.take(it.index() as int),
    {
        let ghost n = it.index() as int;
        let ghost held = out@;
        let made = TargetedPolicy {
            key: join2(prefix, to_decimal((first + i) as u64).as_str()),
            name: None,
            target: PolicyTarget::Gateway(name.to_target()),
            policy: PolicyType::Traffic(p, phase),
        };
        assert(made@ =~= expected[n]);
        out.push(made);
        i = i + 1;
        proof {
            lemma_views(held, Seq::empty());
            assert(before + expected.take(n + 1) =~= (before + expected.take(n)).push(expected[n]));
        }
    }
    assert(expected.take(all.len() as int) =~= expected);
}

impl LocalListener {
    /// Why the protocol of the listener is refused, if it is: it lacks what it needs.
    pub open spec fn protocol_refusal(self) -> Option<Text> {
        match self.protocol {
            LocalListenerProtocol::HTTP => if self.routes is None {
                Some("protocol HTTP requires 'routes'"@)
            } else {
                None
            },
            LocalListenerProtocol::HTTPS => if self.routes is None {
                Some("protocol HTTPS requires 'routes'"@)
            } else {
                match self.tls {
                    None => Some("HTTPS listener requires 'tls'"@),
                    Some(Err(e)) => Some(e@),
                    Some(Ok(_)) => None,
                }
            },
            LocalListenerProtocol::TLS => if self.tcp_routes is None {
                Some("protocol TLS requires 'tcpRoutes'"@)
            } else {
                match self.tls {
                    Some(Err(e)) => Some(e@),
                    _ => None,
                }
            },
            LocalListenerProtocol::TCP => if self.tcp_routes is None {
                Some("protocol TCP requires 'tcpRoutes'"@)
            } else {
                None
            },
            LocalListenerProtocol::HBONE => None,
        }
    }

    /// The protocol that the listener speaks.
    pub open spec fn spoken(self) -> ListenerProtocolView {
        match self.protocol {
            LocalListenerProtocol::HTTP => ListenerProtocolView::HTTP,
            LocalListenerProtocol::HTTPS => ListenerProtocolView::HTTPS((*self.tls->0->Ok_0)@),
            LocalListenerProtocol::TLS => ListenerProtocolView::TLS(
                match self.tls {
                    Some(t) => Some((*t->Ok_0)@),
                    None => None,
                },
            ),
            LocalListenerProtocol::TCP => ListenerProtocolView::TCP,
            LocalListenerProtocol::HBONE => ListenerProtocolView::HBONE,
        }
    }

    /// The name of the listener at a place: the one that is set, or one made from the place.
    pub open spec fn listener_name(self, idx: int, gateway: ListenerTargetView) -> ListenerNameView {
        ListenerNameView {
            gateway_name: gateway.gateway_name,
            gateway_namespace: gateway.gateway_namespace,
            listener_name: match self.name.name {
                Some(n) => n@,
                None => "listener"@ + decimal(idx as nat),
            },
            listener_set: None,
        }
    }

    /// The key of the listener at a place of a bind.
    pub open spec fn key(self, idx: int, bind_key: Text, gateway: ListenerTargetView) -> Text {
        let name = self.listener_name(idx, gateway);
        name.gateway_namespace + "/"@ + name.gateway_name + "/"@ + bind_key + "/"@
            + name.listener_name
    }

    /// Why the policies of the listener are refused, if they are.
    pub open spec fn policy_refusal(self, config: GatewayConfig, key: Text) -> Option<Text> {
        match self.policies {
            Some(p) => FilterOrPolicy::of_gateway(p).refusal(
                Some(config.context_of(PolicyIdView::Policy("listener/"@ + key))),
            ),
            None => None,
        }
    }

    /// The policies of the requests of the listener, which run before a route is chosen.
    pub open spec fn rules(self, config: GatewayConfig, key: Text) -> Seq<TrafficPolicyView> {
        match self.policies {
            Some(p) => FilterOrPolicy::of_gateway(p).route_rules(
                Some(config.context_of(PolicyIdView::Policy("listener/"@ + key))),
            ),
            None => Seq::empty(),
        }
    }

    /// Why the listener is refused, if it is.
    pub open spec fn refusal(
        self,
        config: GatewayConfig,
        idx: int,
        bind_key: Text,
        gateway: ListenerTargetView,
    ) -> Option<Text> {
        let key = self.key(idx, bind_key, gateway);
        first_of(
            self.protocol_refusal(),
            first_of(
                if self.tcp_routes is Some && self.routes is Some {
                    Some("only 'routes' or 'tcpRoutes' may be set"@)
                } else {
                    None
                },
                first_of(
                    first_refusal(listed(self.routes), route_refusals(config, key)),
                    first_of(
                        first_refusal(listed(self.tcp_routes), tcp_route_refusals()),
                        self.policy_refusal(config, key),
                    ),
                ),
            ),
        )
    }

    /// What the listener comes to.
    pub open spec fn converted(
        self,
        config: GatewayConfig,
        idx: int,
        bind_key: Text,
        gateway: ListenerTargetView,
    ) -> ConvertedListenerView {
        let key = self.key(idx, bind_key, gateway);
        let name = self.listener_name(idx, gateway);
        ConvertedListenerView {
            listener: ListenerView {
                key,
                name,
                hostname: match self.hostname {
                    Some(h) => h@,
                    None => Seq::empty(),
                },
                protocol: self.spoken(),
            },
            routes: routes_of(config, key, listed(self.routes)),
            tcp_routes: tcp_routes_of(key, listed(self.tcp_routes)),
            policies: attached_policies(
                "listener/"@ + key + "/"@,
                0,
                listener_target(name),
                self.rules(config, key),
                PolicyPhase::Gateway,
            ),
            backends: gathered(listed(self.routes), route_backends(config, key)) + gathered(
                listed(self.tcp_routes),
                tcp_route_backends(key),
            ),
        }
    }
}

/// The routes of a list and the backends that they make.
pub fn convert_routes(config: &GatewayConfig, routes: Vec<LocalRoute>, key: &str) -> (r: Result<
    (Vec<Route>, Vec<BackendWithPolicies>),
    ConfigError,
>)
    ensures
        match r {
            Ok(p) => {
                &&& first_refusal(routes@, route_refusals(*config, key@)) is None
                &&& views(p.0@) == routes_of(*config, key@, routes@)
                &&& views(p.1@) == gathered(routes@, route_backends(*config, key@))
            },
            Err(e) => first_refusal(routes@, route_refusals(*config, key@)) == Some(e@),
        },
{
    let ghost all = routes@;
    let ghost refusals = route_refusals(*config, key@);
    let ghost made_of = route_backends(*config, key@);
    let ghost expected = routes_of(*config, key@, all);
    let mut rs: Vec<Route> = Vec::new();
    let mut made: Vec<BackendWithPolicies> = Vec::new();
    assert(views(made@) =~= Seq::<BackendWithPoliciesView>::empty());
    for l in it: routes.into_iter()
        invariant
            it.seq() == all,
            refusals == route_refusals(*config, key@),
            made_of == route_backends(*config, key@),
            expected == routes_of(*config, key@, all),
            first_refusal(all.take(it.index() as int), refusals) is None,
            rs@.len() == it.index(),
            forall|i: int| 0 <= i < it.index() ==> (#[trigger] rs@[i])@ == expected[i],
            views(made@) == gathered(all.take(it.index() as int), made_of),
    {
        let ghost n = it.index() as int;
        proof {
            lemma_first_refusal(all, refusals, n);
            lemma_gathered(all, made_of, n);
        }
        let (route, backends) = convert_route(config, l, rs.len(), key)?;
        proof {
            lemma_views(made@, backends@);
        }
        extend(&mut made, backends);
        rs.push(route);
    }
    assert(all.take(all.len() as int) =~= all);
    assert(views(rs@) =~= expected);
    Ok((rs, made))
}

fn convert_tcp_routes(routes: Vec<LocalTCPRoute>, key: &str) -> (r: Result<
    (Vec<TCPRoute>, Vec<BackendWithPolicies>),
    ConfigError,
>)
    ensures
        match r {
            Ok(p) => {
                &&& first_refusal(routes@, tcp_route_refusals()) is None
                &&& views(p.0@) == tcp_routes_of(key@, routes@)
                &&& views(p.1@) == gathered(routes@, tcp_route_backends(key@))
            },
            Err(e) => first_refusal(routes@, tcp_route_refusals()) == Some(e@),
        },
{
    let ghost all = routes@;
    let ghost made_of = tcp_route_backends(key@);
    let ghost expected = tcp_routes_of(key@, all);
    let mut rs: Vec<TCPRoute> = Vec::new();
    let mut made: Vec<BackendWithPolicies> = Vec::new();
    assert(views(made@) =~= Seq::<BackendWithPoliciesView>::empty());
    for l in it: routes.into_iter()
        invariant
            it.seq() == all,
            made_of == tcp_route_backends(key@),
            expected == tcp_routes_of(key@, all),
            first_refusal(all.take(it.index() as int), tcp_route_refusals()) is None,
            rs@.len() == it.index(),
            forall|i: int| 0 <= i < it.index() ==> (#[trigger] rs@[i])@ == expected[i],
            views(made@) == gathered(all.take(it.index() as int), made_of),
    {
        let ghost n = it.index() as int;
        proof {
            lemma_first_refusal(all, tcp_route_refusals(), n);
            lemma_gathered(all, made_of, n);
        }
        let (route, _, backends) = convert_tcp_route(l, rs.len(), key)?;
        proof {
            lemma_views(made@, backends@);
        }
        extend(&mut made, backends);
        rs.push(route);
    }
    assert(all.take(all.len() as int) =~= all);
    assert(views(rs@) =~= expected);
    Ok((rs, made))
}

fn convert_protocol(
    protocol: LocalListenerProtocol,
    tls: Option<Loaded<ServerTLSConfig>>,
    has_routes: bool,
    has_tcp_routes: bool,
    Ghost(l): Ghost<LocalListener>,
) -> (r: Result<ListenerProtocol, ConfigError>)
    requires
        l.protocol == protocol,
        l.tls == tls,
        has_routes == (l.routes is Some),
        has_tcp_routes == (l.tcp_routes is Some),
    ensures
        match r {
            Ok(p) => l.protocol_refusal() is None && p@ == l.spoken(),
            Err(e) => l.protocol_refusal() == Some(e@),
        },
{
    match protocol {
        LocalListenerProtocol::HTTP => {
            if !has_routes {
                return Err(ConfigError::new("protocol HTTP requires 'routes'"));
            }
            Ok(ListenerProtocol::HTTP)
        },
        LocalListenerProtocol::HTTPS => {
            if !has_routes {
                return Err(ConfigError::new("protocol HTTPS requires 'routes'"));
            }
            match tls {
                None => Err(ConfigError::new("HTTPS listener requires 'tls'")),
                Some(Err(e)) => Err(ConfigError::of(e)),
                Some(Ok(t)) => Ok(ListenerProtocol::HTTPS(t)),
            }
        },
        LocalListenerProtocol::TLS => {
            if !has_tcp_routes {
                return Err(ConfigError::new("protocol TLS requires 'tcpRoutes'"));
            }
            match tls {
                None => Ok(ListenerProtocol::TLS(None)),
                Some(Err(e)) => Err(ConfigError::of(e)),
                Some(Ok(t)) => Ok(ListenerProtocol::TLS(Some(t))),
            }
        },
        LocalListenerProtocol::TCP => {
            if !has_tcp_routes {
                return Err(ConfigError::new("protocol TCP requires 'tcpRoutes'"));
            }
            Ok(ListenerProtocol::TCP)
        },
        LocalListenerProtocol::HBONE => Ok(ListenerProtocol::HBONE),
    }
}

/// What the listener at a place of a bind comes to: the listener, its routes, the policies that are
/// attached to it and the backends that its routes write in place.
pub fn convert_listener(
    config: &GatewayConfig,
    idx: usize,
    l: LocalListener,
    bind_key: &str,
    gateway: &ListenerTarget,
) -> (r: Result<ConvertedListener, ConfigError>)
    ensures
        match r {
            Ok(c) => l.refusal(*config, idx as int, bind_key@, gateway@) is None && c@
                == l.converted(*config, idx as int, bind_key@, gateway@),
            Err(e) => l.refusal(*config, idx as int, bind_key@, gateway@) == Some(e@),
        },
{
    let ghost given = l;
    let protocol = convert_protocol(
        l.protocol,
        l.tls,
        l.routes.is_some(),
        l.tcp_routes.is_some(),
        Ghost(given),
    )?;
    if l.tcp_routes.is_some() && l.routes.is_some() {
        return Err(ConfigError::new("only 'routes' or 'tcpRoutes' may be set"));
    }
    let name = ListenerName {
        gateway_name: gateway.gateway_name.clone(),
        gateway_namespace: gateway.gateway_namespace.clone(),
        listener_name: match l.name.name {
            Some(n) => n,
            None => join2("listener", to_decimal(idx as u64).as_str()),
        },
        listener_set: None,
    };
    let place = join5(
        name.gateway_namespace.as_str(),
        "/",
        name.gateway_name.as_str(),
        "/",
        bind_key,
    );
    let key = join3(place.as_str(), "/", name.listener_name.as_str());
    assert(key@ == given.key(idx as int, bind_key@, gateway@));
    let (routes, mut backends) = convert_routes(config, list_of(l.routes), key.as_str())?;
    let (tcp_routes, tcp_backends) = convert_tcp_routes(list_of(l.tcp_routes), key.as_str())?;
    proof {
        lemma_views(backends@, tcp_backends@);
    }
    extend(&mut backends, tcp_backends);
    let mut policies: Vec<TargetedPolicy> = Vec::new();
    match l.policies {
        Some(pol) => {
            let id = join2("listener/", key.as_str());
            let prefix = join2(id.as_str(), "/");
            let pols = split_policies(
                FilterOrPolicy::from(pol),
                Some(config.policy_context(PolicyId::Policy(id))),
            )?;
            attach_policies(
                &mut policies,
                prefix.as_str(),
                0,
                &name,
                pols.route_policies,
                PolicyPhase::Gateway,
            );
        },
        None => {},
    }
    assert(views(policies@) =~= given.converted(
        *config,
        idx as int,
        bind_key@,
        gateway@,
    ).policies);
    let hostname = match l.hostname {
        Some(h) => h,
        None => String::new(),
    };
    assert(l.hostname is None ==> hostname@ =~= Seq::<char>::empty());
    let listener = Listener { key, name, hostname, protocol };
    let r = ConvertedListener { listener, routes, tcp_routes, policies, backends };
    assert(r@ =~= given.converted(*config, idx as int, bind_key@, gateway@));
    Ok(r)
}

// ---------------------------------------------------------------------------------------------
// The protocol of a bind
// ---------------------------------------------------------------------------------------------

/// Whether a listener terminates or passes on TLS.
pub open spec fn speaks_tls(p: ListenerProtocolView) -> bool {
    p is HTTPS || p is TLS
}

/// The protocol that a bind detects, given those of its listeners: TLS if one of them speaks it,
/// else plain connections if one of them takes those, else HTTP.
pub open spec fn detected(listeners: Map<Text, ListenerView>) -> BindProtocol {
    if exists|k: Text| #[trigger] listeners.contains_key(k) && speaks_tls(listeners[k].protocol) {
        BindProtocol::tls
    } else if exists|k: Text|
        #[trigger] listeners.contains_key(k) && listeners[k].protocol is TCP {
        BindProtocol::tcp
    } else {
        BindProtocol::http
    }
}

/// The protocol that a bind detects.
pub fn detect_bind_protocol(listeners: &ListenerSet) -> (r: BindProtocol)
    requires
        listeners.wf(),
    ensures
        r == detected(listeners@),
{
    let mut tcp = false;
    let mut i: usize = 0;
    while i < listeners.inner.len()
        invariant
            listeners.wf(),
            i <= listeners.inner.keys().len(),
            forall|j: int|
                0 <= j < i ==> !speaks_tls((*(#[trigger] listeners.inner.values()[j]))@.protocol),
            tcp == exists|j: int|
                0 <= j < i && (*(#[trigger] listeners.inner.values()[j]))@.protocol is TCP,
        decreases listeners.inner.keys().len() - i,
    {
        proof {
            listeners.inner.lemma_at(i as int);
        }
        let l = listeners.inner.value_at(i);
        match &l.protocol {
            ListenerProtocol::HTTPS(_) => {
                assert(listeners@.contains_key(listeners.inner.keys()[i as int]));
                return BindProtocol::tls;
            },
            ListenerProtocol::TLS(_) => {
                assert(listeners@.contains_key(listeners.inner.keys()[i as int]));
                return BindProtocol::tls;
            },
            ListenerProtocol::TCP => {
                tcp = true;
                assert((*listeners.inner.values()[i as int])@.protocol is TCP);
            },
            _ => {},
        }
        i = i + 1;
    }
    proof {
        assert forall|k: Text| #[trigger] listeners@.contains_key(k) implies exists|j: int|
            0 <= j < i && listeners.inner.keys()[j] == k && (*(
            #[trigger] listeners.inner.values()[j]))@ == listeners@[k] by {
            listeners.inner.lemma_place(k);
        }
        assert forall|j: int| 0 <= j < i implies listeners@.contains_key(
            #[trigger] listeners.inner.keys()[j],
        ) && listeners@[listeners.inner.keys()[j]] == (*listeners.inner.values()[j])@ by {
            listeners.inner.lemma_at(j);
        }
        if tcp {
            let j = choose|j: int|
                0 <= j < i && (*(#[trigger] listeners.inner.values()[j]))@.protocol is TCP;
            assert(listeners@.contains_key(listeners.inner.keys()[j]));
        }
    }
    if tcp {
        BindProtocol::tcp
    } else {
        BindProtocol::http
    }
}

} // verus!
