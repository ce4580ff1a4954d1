//! Binds, listeners, routes, backends and the targets that policies attach to.

use std::sync::Arc;

use vstd::prelude::*;

use crate::keyed::StringMap;
use crate::mcp::FailureMode;
use crate::target_table::{target_id, TargetId, TargetKey};
use crate::text::{
    borrow_text, clone_text, join3, join4, opt_str, opt_text, opt_view, own_text, texts,
    to_decimal, views, Text,
};
use crate::types::llm::{AIBackend, NamedAIProviderView};
use crate::types::policy::{Nanos, PolicyBody};
use crate::types::traffic::{
    BackendTrafficPolicy, BackendTrafficPolicyView, PolicyType, PolicyTypeView, TrafficPolicy,
    TrafficPolicyView,
};

verus! {

pub type BindKey = String;

pub type ListenerKey = String;

pub type RouteKey = String;

pub type RouteGroupKey = String;

pub type PolicyKey = String;

pub type BackendKey = String;

// ---------------------------------------------------------------------------------------------
// Addresses and names
// ---------------------------------------------------------------------------------------------

/// The address of a socket.
#[allow(inconsistent_fields)]
#[derive(Debug, Clone, Copy, PartialEq, Eq, Structural)]
pub enum SocketAddr {
    V4 { ip: u32, port: u16 },
    V6 { ip: u128, port: u16, flowinfo: u32, scope_id: u32 },
}

impl SocketAddr {
    /// The port of the address.
    pub open spec fn port_of(self) -> u16 {
        match self {
            SocketAddr::V4 { ip: _, port } => port,
            SocketAddr::V6 { ip: _, port, flowinfo: _, scope_id: _ } => port,
        }
    }

    /// Whether the address stands for every address of the host.
    pub open spec fn unspecified(self) -> bool {
        match self {
            SocketAddr::V4 { ip, port: _ } => ip == 0,
            SocketAddr::V6 { ip, port: _, flowinfo: _, scope_id: _ } => ip == 0,
        }
    }

    /// Every address of the host, at the given port.
    pub open spec fn any_of(ipv6: bool, port: u16) -> SocketAddr {
        if ipv6 {
            SocketAddr::V6 { ip: 0, port, flowinfo: 0, scope_id: 0 }
        } else {
            SocketAddr::V4 { ip: 0, port }
        }
    }

    /// Every address of the host, at the given port.
    pub fn any(ipv6: bool, port: u16) -> (r: Self)
        ensures
            r == SocketAddr::any_of(ipv6, port),
            r.unspecified(),
            r.port_of() == port,
    {
        if ipv6 {
            SocketAddr::V6 { ip: 0, port, flowinfo: 0, scope_id: 0 }
        } else {
            SocketAddr::V4 { ip: 0, port }
        }
    }

    /// The port of the address.
    pub fn port(&self) -> (r: u16)
        ensures
            r == self.port_of(),
    {
        match self {
            SocketAddr::V4 { ip: _, port } => *port,
            SocketAddr::V6 { ip: _, port, flowinfo: _, scope_id: _ } => *port,
        }
    }

    /// Whether the address stands for every address of the host.
    pub fn is_unspecified(&self) -> (r: bool)
        ensures
            r == self.unspecified(),
    {
        match self {
            SocketAddr::V4 { ip, port: _ } => *ip == 0,
            SocketAddr::V6 { ip, port: _, flowinfo: _, scope_id: _ } => *ip == 0,
        }
    }
}

/// A host and port to connect to. The host is a name or an address.
#[derive(Debug, PartialEq, Eq)]
pub struct Target {
    pub host: String,
    pub port: u16,
}

/// What a [`Target`] holds.
pub struct TargetView {
    pub host: Text,
    pub port: u16,
}

impl View for Target {
    type V = TargetView;

    open spec fn view(&self) -> TargetView {
        TargetView { host: self.host@, port: self.port }
    }
}

impl Target {
    /// A copy of the target.
    pub fn copy(&self) -> (r: Self)
        ensures
            r == *self,
    {
        Target { host: self.host.clone(), port: self.port }
    }
}

/// The name of a resource in its namespace.
#[derive(Debug, PartialEq, Eq)]
pub struct ResourceName {
    pub name: String,
    pub namespace: String,
}

/// What a [`ResourceName`] holds.
pub struct ResourceNameView {
    pub name: Text,
    pub namespace: Text,
}

impl ResourceNameView {
    /// The name in full: the namespace, a slash and the name.
    pub open spec fn full(self) -> Text {
        self.namespace + "/"@ + self.name
    }
}

impl View for ResourceName {
    type V = ResourceNameView;

    open spec fn view(&self) -> ResourceNameView {
        ResourceNameView { name: self.name@, namespace: self.namespace@ }
    }
}

impl ResourceName {
    /// A name in a namespace.
    pub fn new(name: String, namespace: String) -> (r: Self)
        ensures
            r.name == name,
            r.namespace == namespace,
    {
        ResourceName { name, namespace }
    }

    /// The name in full.
    pub fn to_text(&self) -> (r: String)
        ensures
            r@ == self@.full(),
    {
        join3(self.namespace.as_str(), "/", self.name.as_str())
    }

    /// A copy of the name.
    pub fn copy(&self) -> (r: Self)
        ensures
            r == *self,
    {
        ResourceName { name: self.name.clone(), namespace: self.namespace.clone() }
    }

    /// Whether two names are the same.
    pub fn same(&self, other: &ResourceName) -> (r: bool)
        ensures
            r == (self@ == other@),
    {
        self.name == other.name && self.namespace == other.namespace
    }
}

/// A resource's name with the kind of resource that it is.
#[derive(Debug, PartialEq, Eq)]
pub struct TypedResourceName {
    pub kind: String,
    pub name: String,
    pub namespace: String,
}

/// What a [`TypedResourceName`] holds.
pub struct TypedResourceNameView {
    pub kind: Text,
    pub name: Text,
    pub namespace: Text,
}

impl View for TypedResourceName {
    type V = TypedResourceNameView;

    open spec fn view(&self) -> TypedResourceNameView {
        TypedResourceNameView {
            kind: self.kind@,
            name: self.name@,
            namespace: self.namespace@,
        }
    }
}

/// The hostname of a service in its namespace.
#[derive(Debug, PartialEq, Eq)]
pub struct NamespacedHostname {
    pub namespace: String,
    pub hostname: String,
}

/// What a [`NamespacedHostname`] holds.
pub struct NamespacedHostnameView {
    pub namespace: Text,
    pub hostname: Text,
}

impl View for NamespacedHostname {
    type V = NamespacedHostnameView;

    open spec fn view(&self) -> NamespacedHostnameView {
        NamespacedHostnameView { namespace: self.namespace@, hostname: self.hostname@ }
    }
}

impl NamespacedHostname {
    /// A copy of the name.
    pub fn copy(&self) -> (r: Self)
        ensures
            r == *self,
    {
        NamespacedHostname { namespace: self.namespace.clone(), hostname: self.hostname.clone() }
    }

    /// The target of policies that attach to the service.
    pub fn as_policy_target_ref(&self) -> (r: PolicyTargetRef<'_>)
        ensures
            r.id() == service_policy_id(self@),
    {
        PolicyTargetRef::Backend(
            BackendTargetRef::Service {
                hostname: self.hostname.as_str(),
                namespace: self.namespace.as_str(),
                port: None,
            },
        )
    }
}

/// The name of a listener, its gateway, and the listener set that it belongs to, if any.
#[derive(Debug, PartialEq, Eq)]
pub struct ListenerName {
    pub gateway_name: String,
    pub gateway_namespace: String,
    pub listener_name: String,
    pub listener_set: Option<ResourceName>,
}

/// What a [`ListenerName`] holds.
pub struct ListenerNameView {
    pub gateway_name: Text,
    pub gateway_namespace: Text,
    pub listener_name: Text,
    pub listener_set: Option<ResourceNameView>,
}

impl View for ListenerName {
    type V = ListenerNameView;

    open spec fn view(&self) -> ListenerNameView {
        ListenerNameView {
            gateway_name: self.gateway_name@,
            gateway_namespace: self.gateway_namespace@,
            listener_name: self.listener_name@,
            listener_set: opt_view(self.listener_set),
        }
    }
}

impl ListenerName {
    /// A copy of the name.
    pub fn copy(&self) -> (r: Self)
        ensures
            r == *self,
    {
        ListenerName {
            gateway_name: self.gateway_name.clone(),
            gateway_namespace: self.gateway_namespace.clone(),
            listener_name: self.listener_name.clone(),
            listener_set: match &self.listener_set {
                Some(s) => Some(s.copy()),
                None => None,
            },
        }
    }

    /// Whether two names are the same.
    pub fn same(&self, other: &ListenerName) -> (r: bool)
        ensures
            r == (self@ == other@),
    {
        self.gateway_name == other.gateway_name && self.gateway_namespace
            == other.gateway_namespace && self.listener_name == other.listener_name && (match (
            &self.listener_set,
            &other.listener_set,
        ) {
            (Some(a), Some(b)) => a.same(b),
            (None, None) => true,
            _ => false,
        })
    }

    /// The target of policies that attach to the whole gateway.
    pub fn as_gateway_target_ref(&self) -> (r: PolicyTargetRef<'_>)
        ensures
            r.id() == gateway_id(self@, None, None),
    {
        PolicyTargetRef::Gateway {
            gateway_name: self.gateway_name.as_str(),
            gateway_namespace: self.gateway_namespace.as_str(),
            listener_name: None,
            port: None,
        }
    }

    /// The target of policies that attach to a port of the gateway.
    pub fn as_gateway_port_target_ref(&self, port: u16) -> (r: PolicyTargetRef<'_>)
        ensures
            r.id() == gateway_id(self@, None, Some(port)),
    {
        PolicyTargetRef::Gateway {
            gateway_name: self.gateway_name.as_str(),
            gateway_namespace: self.gateway_namespace.as_str(),
            listener_name: None,
            port: Some(port),
        }
    }

    /// The target of policies that attach to this listener of the gateway.
    pub fn as_listener_target_ref(&self) -> (r: PolicyTargetRef<'_>)
        ensures
            r.id() == gateway_id(self@, Some(self@.listener_name), None),
    {
        PolicyTargetRef::Gateway {
            gateway_name: self.gateway_name.as_str(),
            gateway_namespace: self.gateway_namespace.as_str(),
            listener_name: Some(self.listener_name.as_str()),
            port: None,
        }
    }

    /// The target of policies that attach to the listener set.
    pub fn as_listenerset_target_ref(&self) -> (r: Option<PolicyTargetRef<'_>>)
        ensures
            match r {
                Some(t) => self@.listener_set is Some && t.id() == listener_set_id(
                    self@.listener_set->0,
                    None,
                ),
                None => self@.listener_set is None,
            },
    {
        match &self.listener_set {
            Some(s) => Some(
                PolicyTargetRef::ListenerSet {
                    name: s.name.as_str(),
                    namespace: s.namespace.as_str(),
                    section: None,
                },
            ),
            None => None,
        }
    }

    /// The target of policies that attach to this listener of the listener set.
    pub fn as_listenerset_listener_target_ref(&self) -> (r: Option<PolicyTargetRef<'_>>)
        ensures
            match r {
                Some(t) => self@.listener_set is Some && t.id() == listener_set_id(
                    self@.listener_set->0,
                    Some(self@.listener_name),
                ),
                None => self@.listener_set is None,
            },
    {
        match &self.listener_set {
            Some(s) => Some(
                PolicyTargetRef::ListenerSet {
                    name: s.name.as_str(),
                    namespace: s.namespace.as_str(),
                    section: Some(self.listener_name.as_str()),
                },
            ),
            None => None,
        }
    }

    /// The listener as a target of policies.
    pub fn to_target(&self) -> (r: ListenerTarget)
        ensures
            r@ == (ListenerTargetView {
                gateway_name: self@.gateway_name,
                gateway_namespace: self@.gateway_namespace,
                listener_name: Some(self@.listener_name),
                port: None,
            }),
    {
        ListenerTarget {
            gateway_name: self.gateway_name.clone(),
            gateway_namespace: self.gateway_namespace.clone(),
            listener_name: Some(self.listener_name.clone()),
            port: None,
        }
    }
}

/// The name of a route, of the rule within it, and the kind of route.
#[derive(Debug, PartialEq, Eq)]
pub struct RouteName {
    pub name: String,
    pub namespace: String,
    pub rule_name: Option<String>,
    pub kind: Option<String>,
}

/// What a [`RouteName`] holds.
pub struct RouteNameView {
    pub name: Text,
    pub namespace: Text,
    pub rule_name: Option<Text>,
    pub kind: Option<Text>,
}

impl View for RouteName {
    type V = RouteNameView;

    open spec fn view(&self) -> RouteNameView {
        RouteNameView {
            name: self.name@,
            namespace: self.namespace@,
            rule_name: opt_text(self.rule_name),
            kind: opt_text(self.kind),
        }
    }
}

impl RouteName {
    /// The target of policies that attach to the rule.
    pub fn as_route_rule_target_ref(&self) -> (r: PolicyTargetRef<'_>)
        ensures
            r.id() == route_id(self@, true),
    {
        PolicyTargetRef::Route {
            name: self.name.as_str(),
            namespace: self.namespace.as_str(),
            rule_name: borrow_text(&self.rule_name),
            kind: borrow_text(&self.kind),
        }
    }

    /// The target of policies that attach to the whole route.
    pub fn as_route_target_ref(&self) -> (r: PolicyTargetRef<'_>)
        ensures
            r.id() == route_id(self@, false),
    {
        PolicyTargetRef::Route {
            name: self.name.as_str(),
            namespace: self.namespace.as_str(),
            rule_name: None,
            kind: borrow_text(&self.kind),
        }
    }
}

// ---------------------------------------------------------------------------------------------
// Policy targets
// ---------------------------------------------------------------------------------------------

/// A gateway, one of its listeners, or one of its ports.
#[derive(Debug, PartialEq, Eq)]
pub struct ListenerTarget {
    pub gateway_name: String,
    pub gateway_namespace: String,
    pub listener_name: Option<String>,
    pub port: Option<u16>,
}

/// What a [`ListenerTarget`] holds.
pub struct ListenerTargetView {
    pub gateway_name: Text,
    pub gateway_namespace: Text,
    pub listener_name: Option<Text>,
    pub port: Option<u16>,
}

impl View for ListenerTarget {
    type V = ListenerTargetView;

    open spec fn view(&self) -> ListenerTargetView {
        ListenerTargetView {
            gateway_name: self.gateway_name@,
            gateway_namespace: self.gateway_namespace@,
            listener_name: opt_text(self.listener_name),
            port: self.port,
        }
    }
}

/// A target that names both a listener and a port.
#[derive(Debug, Clone, Copy, PartialEq, Eq, Structural)]
pub struct MixedTarget;

impl ListenerTarget {
    /// Whether the target names at most one of a listener and a port.
    pub open spec fn valid(&self) -> bool {
        self.listener_name is None || self.port is None
    }

    /// Refuses a target that names both a listener and a port.
    pub fn validate(&self) -> (r: Result<(), MixedTarget>)
        ensures
            r is Ok == self.valid(),
    {
        if self.listener_name.is_some() && self.port.is_some() {
            Err(MixedTarget)
        } else {
            Ok(())
        }
    }

    /// A copy of the target.
    pub fn copy(&self) -> (r: Self)
        ensures
            r == *self,
    {
        ListenerTarget {
            gateway_name: self.gateway_name.clone(),
            gateway_namespace: self.gateway_namespace.clone(),
            listener_name: clone_text(&self.listener_name),
            port: self.port,
        }
    }
}

/// A listener set, or one of its listeners.
#[derive(Debug, PartialEq, Eq)]
pub struct ListenerSetTarget {
    pub name: String,
    pub namespace: String,
    pub section: Option<String>,
}

/// A backend, one of its sections, or a service.
#[derive(Debug, PartialEq, Eq)]
pub enum BackendTarget {
    Backend { name: String, namespace: String, section: Option<String> },
    Service { hostname: String, namespace: String, port: Option<u16> },
    Invalid,
}

/// What a policy attaches to.
#[derive(Debug, PartialEq, Eq)]
pub enum PolicyTarget {
    Gateway(ListenerTarget),
    ListenerSet(ListenerSetTarget),
    Route(RouteName),
    Backend(BackendTarget),
}

/// What a [`PolicyTarget`] holds.
pub enum PolicyTargetView {
    Gateway(ListenerTargetView),
    ListenerSet { name: Text, namespace: Text, section: Option<Text> },
    Route(RouteNameView),
    Backend { name: Text, namespace: Text, section: Option<Text> },
    Service { hostname: Text, namespace: Text, port: Option<u16> },
    InvalidBackend,
}

impl View for PolicyTarget {
    type V = PolicyTargetView;

    open spec fn view(&self) -> PolicyTargetView {
        match self {
            PolicyTarget::Gateway(t) => PolicyTargetView::Gateway(t@),
            PolicyTarget::ListenerSet(t) => PolicyTargetView::ListenerSet {
                name: t.name@,
                namespace: t.namespace@,
                section: opt_text(t.section),
            },
            PolicyTarget::Route(t) => PolicyTargetView::Route(t@),
            PolicyTarget::Backend(BackendTarget::Backend { name, namespace, section }) =>
                PolicyTargetView::Backend {
                name: name@,
                namespace: namespace@,
                section: opt_text(*section),
            },
            PolicyTarget::Backend(BackendTarget::Service { hostname, namespace, port }) =>
                PolicyTargetView::Service {
                hostname: hostname@,
                namespace: namespace@,
                port: *port,
            },
            PolicyTarget::Backend(BackendTarget::Invalid) => PolicyTargetView::InvalidBackend,
        }
    }
}

impl PolicyTargetView {
    /// The identity under which policies of the target are found.
    pub open spec fn id(self) -> TargetId {
        match self {
            PolicyTargetView::Gateway(t) => (
                0u8,
                t.gateway_name,
                t.gateway_namespace,
                t.listener_name,
                None,
                t.port,
            ),
            PolicyTargetView::ListenerSet { name, namespace, section } => (
                1u8,
                name,
                namespace,
                section,
                None,
                None,
            ),
            PolicyTargetView::Route(t) => (2u8, t.name, t.namespace, t.rule_name, t.kind, None),
            PolicyTargetView::Backend { name, namespace, section } => (
                3u8,
                name,
                namespace,
                section,
                None,
                None,
            ),
            PolicyTargetView::Service { hostname, namespace, port } => (
                4u8,
                hostname,
                namespace,
                None,
                None,
                port,
            ),
            PolicyTargetView::InvalidBackend => (5u8, Seq::empty(), Seq::empty(), None, None, None),
        }
    }
}

/// Two targets are the same if they have the same identity: no policy is found under a target that
/// it does not attach to.
pub proof fn target_identity_is_injective(a: PolicyTargetView, b: PolicyTargetView)
    ensures
        a.id() == b.id() ==> a == b,
{
}

/// The identity of a gateway, of one of its listeners or of one of its ports.
pub open spec fn gateway_id(
    name: ListenerNameView,
    listener: Option<Text>,
    port: Option<u16>,
) -> TargetId {
    PolicyTargetView::Gateway(
        ListenerTargetView {
            gateway_name: name.gateway_name,
            gateway_namespace: name.gateway_namespace,
            listener_name: listener,
            port,
        },
    ).id()
}

/// The identity of a listener set or of one of its listeners.
pub open spec fn listener_set_id(set: ResourceNameView, section: Option<Text>) -> TargetId {
    PolicyTargetView::ListenerSet { name: set.name, namespace: set.namespace, section }.id()
}

/// The identity of a route or of its rule.
pub open spec fn route_id(route: RouteNameView, rule: bool) -> TargetId {
    PolicyTargetView::Route(
        RouteNameView {
            rule_name: if rule {
                route.rule_name
            } else {
                None
            },
            ..route
        },
    ).id()
}

/// The identity of a service, whatever the port.
pub open spec fn service_policy_id(service: NamespacedHostnameView) -> TargetId {
    PolicyTargetView::Service {
        hostname: service.hostname,
        namespace: service.namespace,
        port: None,
    }.id()
}

impl PolicyTarget {
    /// The key under which policies of the target are found.
    pub fn key(&self) -> (r: TargetKey)
        ensures
            target_id(r) == self@.id(),
    {
        match self {
            PolicyTarget::Gateway(t) => (
                0u8,
                t.gateway_name.clone(),
                t.gateway_namespace.clone(),
                clone_text(&t.listener_name),
                None,
                t.port,
            ),
            PolicyTarget::ListenerSet(t) => (
                1u8,
                t.name.clone(),
                t.namespace.clone(),
                clone_text(&t.section),
                None,
                None,
            ),
            PolicyTarget::Route(t) => (
                2u8,
                t.name.clone(),
                t.namespace.clone(),
                clone_text(&t.rule_name),
                clone_text(&t.kind),
                None,
            ),
            PolicyTarget::Backend(BackendTarget::Backend { name, namespace, section }) => (
                3u8,
                name.clone(),
                namespace.clone(),
                clone_text(section),
                None,
                None,
            ),
            PolicyTarget::Backend(BackendTarget::Service { hostname, namespace, port }) => (
                4u8,
                hostname.clone(),
                namespace.clone(),
                None,
                None,
                *port,
            ),
            PolicyTarget::Backend(BackendTarget::Invalid) => (
                5u8,
                String::new(),
                String::new(),
                None,
                None,
                None,
            ),
        }
    }

    /// Whether the target can be attached to.
    pub open spec fn valid(&self) -> bool {
        match self {
            PolicyTarget::Gateway(t) => t.valid(),
            _ => true,
        }
    }

    /// Refuses a gateway target that names both a listener and a port.
    pub fn validate(&self) -> (r: Result<(), MixedTarget>)
        ensures
            r is Ok == self.valid(),
    {
        match self {
            PolicyTarget::Gateway(t) => t.validate(),
            _ => Ok(()),
        }
    }

    /// A copy of a gateway target.
    pub fn gateway(target: &ListenerTarget) -> (r: Self)
        ensures
            r == PolicyTarget::Gateway(*target),
    {
        PolicyTarget::Gateway(target.copy())
    }
}

/// A backend target by reference.
#[derive(Debug, Clone, Copy, PartialEq, Eq)]
pub enum BackendTargetRef<'a> {
    Backend { name: &'a str, namespace: &'a str, section: Option<&'a str> },
    Service { hostname: &'a str, namespace: &'a str, port: Option<u16> },
    Invalid,
}

impl<'a> BackendTargetRef<'a> {
    /// What the reference stands for.
    pub open spec fn target(&self) -> PolicyTargetView {
        match self {
            BackendTargetRef::Backend { name, namespace, section } => PolicyTargetView::Backend {
                name: name@,
                namespace: namespace@,
                section: opt_str(*section),
            },
            BackendTargetRef::Service { hostname, namespace, port } => PolicyTargetView::Service {
                hostname: hostname@,
                namespace: namespace@,
                port: *port,
            },
            BackendTargetRef::Invalid => PolicyTargetView::InvalidBackend,
        }
    }

    /// The whole backend, or the service at any port.
    pub fn strip_section(&self) -> (r: BackendTargetRef<'a>)
        ensures
            r.target() == without_section(self.target()),
    {
        match self {
            BackendTargetRef::Backend { name, namespace, section: _ } => BackendTargetRef::Backend {
                name: *name,
                namespace: *namespace,
                section: None,
            },
            BackendTargetRef::Service { hostname, namespace, port: _ } =>
                BackendTargetRef::Service { hostname: *hostname, namespace: *namespace, port: None },
            BackendTargetRef::Invalid => BackendTargetRef::Invalid,
        }
    }
}

/// The target without the section or port that narrows it.
pub open spec fn without_section(t: PolicyTargetView) -> PolicyTargetView {
    match t {
        PolicyTargetView::Backend { name, namespace, section: _ } => PolicyTargetView::Backend {
            name,
            namespace,
            section: None,
        },
        PolicyTargetView::Service { hostname, namespace, port: _ } => PolicyTargetView::Service {
            hostname,
            namespace,
            port: None,
        },
        other => other,
    }
}

/// A policy target by reference.
#[derive(Debug, Clone, Copy, PartialEq, Eq)]
pub enum PolicyTargetRef<'a> {
    Gateway {
        gateway_name: &'a str,
        gateway_namespace: &'a str,
        listener_name: Option<&'a str>,
        port: Option<u16>,
    },
    ListenerSet { name: &'a str, namespace: &'a str, section: Option<&'a str> },
    Route {
        name: &'a str,
        namespace: &'a str,
        rule_name: Option<&'a str>,
        kind: Option<&'a str>,
    },
    Backend(BackendTargetRef<'a>),
}

impl<'a> PolicyTargetRef<'a> {
    /// What the reference stands for.
    pub open spec fn target(&self) -> PolicyTargetView {
        match self {
            PolicyTargetRef::Gateway { gateway_name, gateway_namespace, listener_name, port } =>
                PolicyTargetView::Gateway(
                ListenerTargetView {
                    gateway_name: gateway_name@,
                    gateway_namespace: gateway_namespace@,
                    listener_name: opt_str(*listener_name),
                    port: *port,
                },
            ),
            PolicyTargetRef::ListenerSet { name, namespace, section } =>
                PolicyTargetView::ListenerSet {
                name: name@,
                namespace: namespace@,
                section: opt_str(*section),
            },
            PolicyTargetRef::Route { name, namespace, rule_name, kind } => PolicyTargetView::Route(
                RouteNameView {
                    name: name@,
                    namespace: namespace@,
                    rule_name: opt_str(*rule_name),
                    kind: opt_str(*kind),
                },
            ),
            PolicyTargetRef::Backend(t) => t.target(),
        }
    }

    /// The identity under which policies of the target are found.
    pub open spec fn id(&self) -> TargetId {
        self.target().id()
    }

    /// The key under which policies of the target are found.
    pub fn key(&self) -> (r: TargetKey)
        ensures
            target_id(r) == self.id(),
    {
        match self {
            PolicyTargetRef::Gateway { gateway_name, gateway_namespace, listener_name, port } => (
                0u8,
                (*gateway_name).to_owned(),
                (*gateway_namespace).to_owned(),
                own_text(*listener_name),
                None,
                *port,
            ),
            PolicyTargetRef::ListenerSet { name, namespace, section } => (
                1u8,
                (*name).to_owned(),
                (*namespace).to_owned(),
                own_text(*section),
                None,
                None,
            ),
            PolicyTargetRef::Route { name, namespace, rule_name, kind } => (
                2u8,
                (*name).to_owned(),
                (*namespace).to_owned(),
                own_text(*rule_name),
                own_text(*kind),
                None,
            ),
            PolicyTargetRef::Backend(BackendTargetRef::Backend { name, namespace, section }) => (
                3u8,
                (*name).to_owned(),
                (*namespace).to_owned(),
                own_text(*section),
                None,
                None,
            ),
            PolicyTargetRef::Backend(BackendTargetRef::Service { hostname, namespace, port }) => (
                4u8,
                (*hostname).to_owned(),
                (*namespace).to_owned(),
                None,
                None,
                *port,
            ),
            PolicyTargetRef::Backend(BackendTargetRef::Invalid) => (
                5u8,
                String::new(),
                String::new(),
                None,
                None,
                None,
            ),
        }
    }
}

/// A policy with what it attaches to.
#[derive(Debug)]
pub struct TargetedPolicy {
    pub key: PolicyKey,
    pub name: Option<TypedResourceName>,
    pub target: PolicyTarget,
    pub policy: PolicyType,
}

/// What a [`TargetedPolicy`] holds.
#[verifier::ext_equal]
pub struct TargetedPolicyView {
    pub key: Text,
    pub name: Option<TypedResourceNameView>,
    pub target: PolicyTargetView,
    pub policy: PolicyTypeView,
}

impl View for TargetedPolicy {
    type V = TargetedPolicyView;

    open spec fn view(&self) -> TargetedPolicyView {
        TargetedPolicyView {
            key: self.key@,
            name: opt_view(self.name),
            target: self.target@,
            policy: self.policy@,
        }
    }
}

// ---------------------------------------------------------------------------------------------
// Listeners and binds
// ---------------------------------------------------------------------------------------------

/// A version of TLS.
#[derive(Debug, Clone, Copy, PartialEq, Eq, Structural)]
pub enum TLSVersion {
    TLS12,
    TLS13,
}

/// The certificates and settings with which a listener terminates TLS.
#[derive(Debug)]
pub struct ServerTLSConfig {
    pub cert: Vec<u8>,
    pub key: Vec<u8>,
    pub root: Option<Vec<u8>>,
    pub alpn: Vec<String>,
    pub min_version: Option<TLSVersion>,
    pub max_version: Option<TLSVersion>,
    pub cipher_suites: Option<Vec<String>>,
    pub key_exchange_groups: Option<Vec<String>>,
}

/// What a [`ServerTLSConfig`] holds.
#[verifier::ext_equal]
pub struct ServerTLSConfigView {
    pub cert: Seq<u8>,
    pub key: Seq<u8>,
    pub root: Option<Seq<u8>>,
    pub alpn: Seq<Text>,
    pub min_version: Option<TLSVersion>,
    pub max_version: Option<TLSVersion>,
    pub cipher_suites: Option<Seq<Text>>,
    pub key_exchange_groups: Option<Seq<Text>>,
}

/// The texts of an optional list of strings.
pub open spec fn opt_texts(list: Option<Vec<String>>) -> Option<Seq<Text>> {
    match list {
        Some(l) => Some(texts(l@)),
        None => None,
    }
}

impl View for ServerTLSConfig {
    type V = ServerTLSConfigView;

    open spec fn view(&self) -> ServerTLSConfigView {
        ServerTLSConfigView {
            cert: self.cert@,
            key: self.key@,
            root: match self.root {
                Some(r) => Some(r@),
                None => None,
            },
            alpn: texts(self.alpn@),
            min_version: self.min_version,
            max_version: self.max_version,
            cipher_suites: opt_texts(self.cipher_suites),
            key_exchange_groups: opt_texts(self.key_exchange_groups),
        }
    }
}

fn same_bytes(a: &Vec<u8>, b: &Vec<u8>) -> (r: bool)
    ensures
        r == (a@ == b@),
{
    if a.len() != b.len() {
        return false;
    }
    let mut i: usize = 0;
    while i < a.len()
        invariant
            i <= a@.len(),
            a@.len() == b@.len(),
            forall|j: int| 0 <= j < i ==> a@[j] == b@[j],
        decreases a@.len() - i,
    {
        if a[i] != b[i] {
            return false;
        }
        i = i + 1;
    }
    assert(a@ =~= b@);
    true
}

/// Whether two lists hold the same strings in the same order.
pub fn same_texts(a: &Vec<String>, b: &Vec<String>) -> (r: bool)
    ensures
        r == (texts(a@) == texts(b@)),
{
    if a.len() != b.len() {
        assert(texts(a@).len() != texts(b@).len());
        return false;
    }
    let mut i: usize = 0;
    while i < a.len()
        invariant
            i <= a@.len(),
            a@.len() == b@.len(),
            forall|j: int| 0 <= j < i ==> texts(a@)[j] == texts(b@)[j],
        decreases a@.len() - i,
    {
        if a[i] != b[i] {
            assert(texts(a@)[i as int] != texts(b@)[i as int]);
            return false;
        }
        i = i + 1;
    }
    assert(texts(a@) =~= texts(b@));
    true
}

fn same_optional_texts(a: &Option<Vec<String>>, b: &Option<Vec<String>>) -> (r: bool)
    ensures
        r == (opt_texts(*a) == opt_texts(*b)),
{
    match (a, b) {
        (Some(x), Some(y)) => same_texts(x, y),
        (None, None) => true,
        _ => false,
    }
}

impl ServerTLSConfig {
    /// Whether two configurations hold the same.
    pub fn same(&self, other: &ServerTLSConfig) -> (r: bool)
        ensures
            r == (self@ == other@),
    {
        same_bytes(&self.cert, &other.cert) && same_bytes(&self.key, &other.key) && (match (
            &self.root,
            &other.root,
        ) {
            (Some(a), Some(b)) => same_bytes(a, b),
            (None, None) => true,
            _ => false,
        }) && same_texts(&self.alpn, &other.alpn) && same_version(
            self.min_version,
            other.min_version,
        ) && same_version(self.max_version, other.max_version) && same_optional_texts(
            &self.cipher_suites,
            &other.cipher_suites,
        ) && same_optional_texts(&self.key_exchange_groups, &other.key_exchange_groups)
    }
}

fn same_version(a: Option<TLSVersion>, b: Option<TLSVersion>) -> (r: bool)
    ensures
        r == (a == b),
{
    match (a, b) {
        (Some(x), Some(y)) => x == y,
        (None, None) => true,
        _ => false,
    }
}

/// The protocol that a listener speaks.
#[derive(Debug)]
pub enum ListenerProtocol {
    HTTP,
    HTTPS(Arc<ServerTLSConfig>),
    TLS(Option<Arc<ServerTLSConfig>>),
    TCP,
    HBONE,
}

/// What a [`ListenerProtocol`] holds.
#[verifier::ext_equal]
pub enum ListenerProtocolView {
    HTTP,
    HTTPS(ServerTLSConfigView),
    TLS(Option<ServerTLSConfigView>),
    TCP,
    HBONE,
}

impl View for ListenerProtocol {
    type V = ListenerProtocolView;

    open spec fn view(&self) -> ListenerProtocolView {
        match self {
            ListenerProtocol::HTTP => ListenerProtocolView::HTTP,
            ListenerProtocol::HTTPS(t) => ListenerProtocolView::HTTPS((**t)@),
            ListenerProtocol::TLS(Some(t)) => ListenerProtocolView::TLS(Some((**t)@)),
            ListenerProtocol::TLS(None) => ListenerProtocolView::TLS(None),
            ListenerProtocol::TCP => ListenerProtocolView::TCP,
            ListenerProtocol::HBONE => ListenerProtocolView::HBONE,
        }
    }
}

impl ListenerProtocol {
    /// Whether two protocols are the same.
    pub fn same(&self, other: &ListenerProtocol) -> (r: bool)
        ensures
            r == (self@ == other@),
    {
        match (self, other) {
            (ListenerProtocol::HTTP, ListenerProtocol::HTTP) => true,
            (ListenerProtocol::HTTPS(a), ListenerProtocol::HTTPS(b)) => a.same(b),
            (ListenerProtocol::TLS(Some(a)), ListenerProtocol::TLS(Some(b))) => a.same(b),
            (ListenerProtocol::TLS(None), ListenerProtocol::TLS(None)) => true,
            (ListenerProtocol::TCP, ListenerProtocol::TCP) => true,
            (ListenerProtocol::HBONE, ListenerProtocol::HBONE) => true,
            _ => false,
        }
    }
}

/// A listener of a bind.
#[derive(Debug)]
pub struct Listener {
    pub key: ListenerKey,
    pub name: ListenerName,
    pub hostname: String,
    pub protocol: ListenerProtocol,
}

/// What a [`Listener`] holds.
#[verifier::ext_equal]
pub struct ListenerView {
    pub key: Text,
    pub name: ListenerNameView,
    pub hostname: Text,
    pub protocol: ListenerProtocolView,
}

impl View for Listener {
    type V = ListenerView;

    open spec fn view(&self) -> ListenerView {
        ListenerView {
            key: self.key@,
            name: self.name@,
            hostname: self.hostname@,
            protocol: self.protocol@,
        }
    }
}

impl Listener {
    /// Whether two listeners are the same.
    pub fn same(&self, other: &Listener) -> (r: bool)
        ensures
            r == (self@ == other@),
    {
        self.key == other.key && self.name.same(&other.name) && self.hostname == other.hostname
            && self.protocol.same(&other.protocol)
    }
}

/// The listeners of a bind by their keys.
#[derive(Debug)]
pub struct ListenerSet {
    pub inner: StringMap<Arc<Listener>>,
}

/// The views of the listeners of a map.
pub open spec fn listener_views(m: Map<Text, Arc<Listener>>) -> Map<Text, ListenerView> {
    m.map_values(|l: Arc<Listener>| (*l)@)
}

impl View for ListenerSet {
    type V = Map<Text, ListenerView>;

    open spec fn view(&self) -> Map<Text, ListenerView> {
        listener_views(self.inner@)
    }
}

impl ListenerSet {
    /// Each listener is held under its own key.
    pub open spec fn wf(&self) -> bool {
        &&& self.inner.wf()
        &&& keyed_by_key(self@)
    }

    /// The set without listeners.
    pub fn new() -> (r: Self)
        ensures
            r.wf(),
            r@ == Map::<Text, ListenerView>::empty(),
            r.inner.keys().len() == 0,
    {
        let r = ListenerSet { inner: StringMap::new() };
        assert(r@ =~= Map::<Text, ListenerView>::empty());
        r
    }

    /// Adds a listener, in place of the one with its key.
    pub fn insert(&mut self, l: Arc<Listener>)
        requires
            old(self).wf(),
        ensures
            final(self).wf(),
            final(self)@ == old(self)@.insert((*l)@.key, (*l)@),
            final(self).inner@ == old(self).inner@.insert((*l)@.key, l),
    {
        let ghost before = *self;
        let key = l.key.clone();
        self.inner.insert(key, l);
        assert(self@ =~= before@.insert((*l)@.key, (*l)@));
    }

    /// Takes out the listener with the key.
    pub fn remove(&mut self, key: &str)
        requires
            old(self).wf(),
        ensures
            final(self).wf(),
            final(self)@ == old(self)@.remove(key@),
            final(self).inner@ == old(self).inner@.remove(key@),
    {
        let ghost before = *self;
        self.inner.remove(key);
        assert(self@ =~= before@.remove(key@));
    }

    /// Whether a listener has the key.
    pub fn contains(&self, key: &str) -> (r: bool)
        requires
            self.wf(),
        ensures
            r == self@.contains_key(key@),
    {
        self.inner.contains_key(key)
    }

    /// The listener with the key.
    pub fn get(&self, key: &str) -> (r: Option<&Arc<Listener>>)
        requires
            self.wf(),
        ensures
            match r {
                Some(l) => self@.contains_key(key@) && (**l)@ == self@[key@] && *l
                    == self.inner@[key@] && self.inner@.contains_key(key@),
                None => !self@.contains_key(key@),
            },
    {
        self.inner.get(key)
    }

    /// A set that shares the listeners of this one.
    pub fn share(&self) -> (r: Self)
        ensures
            r@ == self@,
            r.inner@ == self.inner@,
            r.inner.keys() == self.inner.keys(),
            self.wf() ==> r.wf(),
    {
        ListenerSet { inner: self.inner.share() }
    }

    /// The set of the given listeners; of those with one key the last stays.
    pub fn from_list(list: Vec<Listener>) -> (r: Self)
        ensures
            r.wf(),
            r@ == listeners_of(views(list@)),
    {
        let mut out = ListenerSet::new();
        let ghost all = list@;
        for l in it: list.into_iter()
            invariant
                out.wf(),
                it.seq() == all,
                out@ == listeners_of(views(all.take(it.index() as int))),
        {
            let ghost n = it.index() as int;
            proof {
                assert(views(all.take(n + 1)) =~= views(all.take(n)).push(l@));
                assert(views(all.take(n)).push(l@).drop_last() =~= views(all.take(n)));
            }
            out.insert(Arc::new(l));
        }
        assert(all.take(all.len() as int) =~= all);
        out
    }
}

/// Each listener stands under its own key.
pub open spec fn keyed_by_key(m: Map<Text, ListenerView>) -> bool {
    forall|k: Text| #[trigger] m.contains_key(k) ==> m[k].key == k
}

/// The listeners of a list by their keys; of those with one key the last counts.
pub open spec fn listeners_of(list: Seq<ListenerView>) -> Map<Text, ListenerView>
    decreases list.len(),
{
    if list.len() == 0 {
        Map::empty()
    } else {
        listeners_of(list.drop_last()).insert(list.last().key, list.last())
    }
}

/// The protocol that a bind detects on its connections.
#[allow(non_camel_case_types)]
#[derive(Debug, Clone, Copy, PartialEq, Eq, Structural)]
pub enum BindProtocol {
    http,
    tls,
    tcp,
}

/// The protocol in which connections to a bind are wrapped.
#[derive(Debug, Clone, Copy, PartialEq, Eq, Structural)]
pub enum TunnelProtocol {
    Direct,
    HboneWaypoint,
    HboneGateway,
    Proxy,
}

/// An address that the gateway accepts connections on.
#[derive(Debug)]
pub struct Bind {
    pub key: BindKey,
    pub address: SocketAddr,
    pub protocol: BindProtocol,
    pub tunnel_protocol: TunnelProtocol,
    pub listeners: ListenerSet,
}

/// What a [`Bind`] holds.
#[verifier::ext_equal]
pub struct BindView {
    pub key: Text,
    pub address: SocketAddr,
    pub protocol: BindProtocol,
    pub tunnel_protocol: TunnelProtocol,
    pub listeners: Map<Text, ListenerView>,
}

impl View for Bind {
    type V = BindView;

    open spec fn view(&self) -> BindView {
        BindView {
            key: self.key@,
            address: self.address,
            protocol: self.protocol,
            tunnel_protocol: self.tunnel_protocol,
            listeners: self.listeners@,
        }
    }
}

impl Bind {
    /// The bind's listeners are held under their keys.
    pub open spec fn wf(&self) -> bool {
        self.listeners.wf()
    }

    /// A bind that shares the listeners of this one.
    pub fn share(&self) -> (r: Self)
        ensures
            r@ == self@,
            self.wf() ==> r.wf(),
    {
        Bind {
            key: self.key.clone(),
            address: self.address,
            protocol: self.protocol,
            tunnel_protocol: self.tunnel_protocol,
            listeners: self.listeners.share(),
        }
    }

    /// The bind that a control plane names: at the port, on every address of the host, without
    /// listeners yet.
    pub fn from_xds(
        key: String,
        port: u16,
        protocol: BindProtocol,
        tunnel_protocol: TunnelProtocol,
        ipv6_enabled: bool,
    ) -> (r: Self)
        ensures
            r.wf(),
            r@ == (BindView {
                key: key@,
                address: SocketAddr::any_of(ipv6_enabled, port),
                protocol,
                tunnel_protocol,
                listeners: Map::empty(),
            }),
    {
        Bind {
            key,
            address: SocketAddr::any(ipv6_enabled, port),
            protocol,
            tunnel_protocol,
            listeners: ListenerSet::new(),
        }
    }
}

// ---------------------------------------------------------------------------------------------
// Routes
// ---------------------------------------------------------------------------------------------

/// A header, or one of the parts of a request or response that HTTP/2 treats like one.
#[derive(Debug, PartialEq, Eq)]
pub enum HeaderOrPseudo {
    Header(String),
    Method,
    Scheme,
    Authority,
    Path,
    Status,
}

/// What a [`HeaderOrPseudo`] holds.
pub enum HeaderOrPseudoView {
    Header(Text),
    Method,
    Scheme,
    Authority,
    Path,
    Status,
}

impl View for HeaderOrPseudo {
    type V = HeaderOrPseudoView;

    open spec fn view(&self) -> HeaderOrPseudoView {
        match self {
            HeaderOrPseudo::Header(n) => HeaderOrPseudoView::Header(n@),
            HeaderOrPseudo::Method => HeaderOrPseudoView::Method,
            HeaderOrPseudo::Scheme => HeaderOrPseudoView::Scheme,
            HeaderOrPseudo::Authority => HeaderOrPseudoView::Authority,
            HeaderOrPseudo::Path => HeaderOrPseudoView::Path,
            HeaderOrPseudo::Status => HeaderOrPseudoView::Status,
        }
    }
}

/// What a value must be: a given one, or one that a regular expression matches.
#[derive(Debug, PartialEq, Eq)]
pub enum HeaderValueMatch {
    Exact(String),
    Regex(String),
}

/// What a [`HeaderValueMatch`] holds.
pub enum HeaderValueMatchView {
    Exact(Text),
    Regex(Text),
}

impl View for HeaderValueMatch {
    type V = HeaderValueMatchView;

    open spec fn view(&self) -> HeaderValueMatchView {
        match self {
            HeaderValueMatch::Exact(v) => HeaderValueMatchView::Exact(v@),
            HeaderValueMatch::Regex(v) => HeaderValueMatchView::Regex(v@),
        }
    }
}

/// A header and what its value must be.
#[derive(Debug, PartialEq, Eq)]
pub struct HeaderMatch {
    pub name: HeaderOrPseudo,
    pub value: HeaderValueMatch,
}

/// What a [`HeaderMatch`] holds.
pub struct HeaderMatchView {
    pub name: HeaderOrPseudoView,
    pub value: HeaderValueMatchView,
}

impl View for HeaderMatch {
    type V = HeaderMatchView;

    open spec fn view(&self) -> HeaderMatchView {
        HeaderMatchView { name: self.name@, value: self.value@ }
    }
}

/// What the path of a request must be.
#[derive(Debug, PartialEq, Eq)]
pub enum PathMatch {
    Exact(String),
    PathPrefix(String),
    Regex(String),
}

/// What a [`PathMatch`] holds.
pub enum PathMatchView {
    Exact(Text),
    PathPrefix(Text),
    Regex(Text),
}

impl View for PathMatch {
    type V = PathMatchView;

    open spec fn view(&self) -> PathMatchView {
        match self {
            PathMatch::Exact(p) => PathMatchView::Exact(p@),
            PathMatch::PathPrefix(p) => PathMatchView::PathPrefix(p@),
            PathMatch::Regex(p) => PathMatchView::Regex(p@),
        }
    }
}

/// A query parameter and what its value must be.
#[derive(Debug, PartialEq, Eq)]
pub struct QueryMatch {
    pub name: String,
    pub value: HeaderValueMatch,
}

/// The requests that a route takes.
#[derive(Debug)]
pub struct RouteMatch {
    pub headers: Vec<Arc<HeaderMatch>>,
    pub path: PathMatch,
    pub method: Option<String>,
    pub query: Vec<QueryMatch>,
}

/// What a [`RouteMatch`] holds.
#[verifier::ext_equal]
pub struct RouteMatchView {
    pub headers: Seq<HeaderMatchView>,
    pub path: PathMatchView,
    pub method: Option<Text>,
    pub query: Seq<QueryMatch>,
}

/// What shared header matches hold.
pub open spec fn header_views(headers: Seq<Arc<HeaderMatch>>) -> Seq<HeaderMatchView> {
    headers.map_values(|h: Arc<HeaderMatch>| (*h)@)
}

impl View for RouteMatch {
    type V = RouteMatchView;

    open spec fn view(&self) -> RouteMatchView {
        RouteMatchView {
            headers: header_views(self.headers@),
            path: self.path@,
            method: opt_text(self.method),
            query: self.query@,
        }
    }
}

/// Requests whose path begins with the prefix, whatever else they hold.
pub open spec fn prefix_match(prefix: Text) -> RouteMatchView {
    RouteMatchView {
        headers: Seq::empty(),
        path: PathMatchView::PathPrefix(prefix),
        method: None,
        query: Seq::empty(),
    }
}

impl RouteMatch {
    /// Takes requests whose path begins with the prefix.
    pub fn prefix(prefix: &str) -> (r: Self)
        ensures
            r@ == prefix_match(prefix@),
    {
        let r = RouteMatch {
            headers: Vec::new(),
            path: PathMatch::PathPrefix(prefix.to_owned()),
            method: None,
            query: Vec::new(),
        };
        assert(r@ =~= prefix_match(prefix@));
        r
    }
}

/// A backend by reference.
#[derive(Debug, PartialEq, Eq)]
pub enum BackendReference {
    Service { name: NamespacedHostname, port: u16 },
    Backend(BackendKey),
    Invalid,
}

/// What a [`BackendReference`] holds.
pub enum BackendReferenceView {
    Service { name: NamespacedHostnameView, port: u16 },
    Backend(Text),
    Invalid,
}

impl View for BackendReference {
    type V = BackendReferenceView;

    open spec fn view(&self) -> BackendReferenceView {
        match self {
            BackendReference::Service { name, port } => BackendReferenceView::Service {
                name: name@,
                port: *port,
            },
            BackendReference::Backend(k) => BackendReferenceView::Backend(k@),
            BackendReference::Invalid => BackendReferenceView::Invalid,
        }
    }
}

/// A backend that needs no more than a connection, by reference or inline.
#[derive(Debug, PartialEq, Eq)]
pub enum SimpleBackendReference {
    Service { name: NamespacedHostname, port: u16 },
    Backend(BackendKey),
    InlineBackend(Target),
    Invalid,
}

/// What a [`SimpleBackendReference`] holds.
pub enum SimpleBackendReferenceView {
    Service { name: NamespacedHostnameView, port: u16 },
    Backend(Text),
    InlineBackend(TargetView),
    Invalid,
}

impl View for SimpleBackendReference {
    type V = SimpleBackendReferenceView;

    open spec fn view(&self) -> SimpleBackendReferenceView {
        match self {
            SimpleBackendReference::Service { name, port } => SimpleBackendReferenceView::Service {
                name: name@,
                port: *port,
            },
            SimpleBackendReference::Backend(k) => SimpleBackendReferenceView::Backend(k@),
            SimpleBackendReference::InlineBackend(t) => SimpleBackendReferenceView::InlineBackend(
                t@,
            ),
            SimpleBackendReference::Invalid => SimpleBackendReferenceView::Invalid,
        }
    }
}

impl SimpleBackendReference {
    /// A copy of the reference.
    pub fn copy(&self) -> (r: Self)
        ensures
            r == *self,
    {
        match self {
            SimpleBackendReference::Service { name, port } => SimpleBackendReference::Service {
                name: name.copy(),
                port: *port,
            },
            SimpleBackendReference::Backend(k) => SimpleBackendReference::Backend(k.clone()),
            SimpleBackendReference::InlineBackend(t) => SimpleBackendReference::InlineBackend(
                t.copy(),
            ),
            SimpleBackendReference::Invalid => SimpleBackendReference::Invalid,
        }
    }
}

/// Where a route sends requests: to a backend, or on to a group of routes.
#[derive(Debug, PartialEq, Eq)]
pub enum RouteBackendTarget {
    Backend(BackendReference),
    RouteGroup(RouteGroupKey),
}

/// What a [`RouteBackendTarget`] holds.
pub enum RouteBackendTargetView {
    Backend(BackendReferenceView),
    RouteGroup(Text),
}

impl View for RouteBackendTarget {
    type V = RouteBackendTargetView;

    open spec fn view(&self) -> RouteBackendTargetView {
        match self {
            RouteBackendTarget::Backend(b) => RouteBackendTargetView::Backend(b@),
            RouteBackendTarget::RouteGroup(g) => RouteBackendTargetView::RouteGroup(g@),
        }
    }
}

/// A backend of a route, its share of the requests, and its policies.
#[derive(Debug)]
pub struct RouteBackendReference {
    pub weight: usize,
    pub target: RouteBackendTarget,
    pub inline_policies: Vec<BackendTrafficPolicy>,
}

/// What a [`RouteBackendReference`] holds.
#[verifier::ext_equal]
pub struct RouteBackendReferenceView {
    pub weight: usize,
    pub target: RouteBackendTargetView,
    pub inline_policies: Seq<BackendTrafficPolicyView>,
}

impl View for RouteBackendReference {
    type V = RouteBackendReferenceView;

    open spec fn view(&self) -> RouteBackendReferenceView {
        RouteBackendReferenceView {
            weight: self.weight,
            target: self.target@,
            inline_policies: views(self.inline_policies@),
        }
    }
}

/// Which requests go where, and under which policies.
#[derive(Debug)]
pub struct Route {
    pub key: RouteKey,
    pub service_key: Option<NamespacedHostname>,
    pub name: RouteName,
    pub hostnames: Vec<String>,
    pub matches: Vec<RouteMatch>,
    pub inline_policies: Vec<TrafficPolicy>,
    pub backends: Vec<RouteBackendReference>,
}

/// What a [`Route`] holds.
#[verifier::ext_equal]
pub struct RouteView {
    pub key: Text,
    pub service_key: Option<NamespacedHostnameView>,
    pub name: RouteNameView,
    pub hostnames: Seq<Text>,
    pub matches: Seq<RouteMatchView>,
    pub inline_policies: Seq<TrafficPolicyView>,
    pub backends: Seq<RouteBackendReferenceView>,
}

impl View for Route {
    type V = RouteView;

    open spec fn view(&self) -> RouteView {
        RouteView {
            key: self.key@,
            service_key: opt_view(self.service_key),
            name: self.name@,
            hostnames: texts(self.hostnames@),
            matches: views(self.matches@),
            inline_policies: views(self.inline_policies@),
            backends: views(self.backends@),
        }
    }
}

/// A backend of a TCP route, its share of the connections, and its policies.
#[derive(Debug)]
pub struct TCPRouteBackendReference {
    pub weight: usize,
    pub backend: SimpleBackendReference,
    pub inline_policies: Vec<BackendTrafficPolicy>,
}

/// What a [`TCPRouteBackendReference`] holds.
#[verifier::ext_equal]
pub struct TCPRouteBackendReferenceView {
    pub weight: usize,
    pub backend: SimpleBackendReferenceView,
    pub inline_policies: Seq<BackendTrafficPolicyView>,
}

impl View for TCPRouteBackendReference {
    type V = TCPRouteBackendReferenceView;

    open spec fn view(&self) -> TCPRouteBackendReferenceView {
        TCPRouteBackendReferenceView {
            weight: self.weight,
            backend: self.backend@,
            inline_policies: views(self.inline_policies@),
        }
    }
}

/// Which connections go where.
#[derive(Debug)]
pub struct TCPRoute {
    pub key: RouteKey,
    pub service_key: Option<NamespacedHostname>,
    pub name: RouteName,
    pub hostnames: Vec<String>,
    pub backends: Vec<TCPRouteBackendReference>,
}

/// What a [`TCPRoute`] holds.
#[verifier::ext_equal]
pub struct TCPRouteView {
    pub key: Text,
    pub service_key: Option<NamespacedHostnameView>,
    pub name: RouteNameView,
    pub hostnames: Seq<Text>,
    pub backends: Seq<TCPRouteBackendReferenceView>,
}

impl View for TCPRoute {
    type V = TCPRouteView;

    open spec fn view(&self) -> TCPRouteView {
        TCPRouteView {
            key: self.key@,
            service_key: opt_view(self.service_key),
            name: self.name@,
            hostnames: texts(self.hostnames@),
            backends: views(self.backends@),
        }
    }
}

/// Something that is held under a key of its own.
pub trait Keyed: Sized {
    /// The key.
    spec fn key_text(&self) -> Text;

    /// The key.
    fn key(&self) -> (r: &String)
        ensures
            r@ == self.key_text(),
    ;
}

impl Keyed for Route {
    open spec fn key_text(&self) -> Text {
        self.key@
    }

    fn key(&self) -> (r: &String) {
        &self.key
    }
}

impl Keyed for TCPRoute {
    open spec fn key_text(&self) -> Text {
        self.key@
    }

    fn key(&self) -> (r: &String) {
        &self.key
    }
}

/// Each route stands under its own key.
pub open spec fn routes_keyed<R: Keyed>(m: Map<Text, Arc<R>>) -> bool {
    forall|k: Text| #[trigger] m.contains_key(k) ==> (*m[k]).key_text() == k
}

/// Routes by their keys.
#[derive(Debug)]
pub struct Routes<R> {
    pub all: StringMap<Arc<R>>,
}

/// HTTP routes by their keys.
pub type RouteSet = Routes<Route>;

/// TCP routes by their keys.
pub type TCPRouteSet = Routes<TCPRoute>;

impl<R: Keyed> View for Routes<R> {
    type V = Map<Text, Arc<R>>;

    open spec fn view(&self) -> Map<Text, Arc<R>> {
        self.all@
    }
}

impl<R: Keyed> Routes<R> {
    /// Each route is held under its own key.
    pub open spec fn wf(&self) -> bool {
        &&& self.all.wf()
        &&& routes_keyed(self@)
    }

    /// The set without routes.
    pub fn new() -> (r: Self)
        ensures
            r.wf(),
            r@ == Map::<Text, Arc<R>>::empty(),
    {
        Routes { all: StringMap::new() }
    }

    /// Adds a route, in place of the one with its key.
    pub fn insert(&mut self, route: R)
        requires
            old(self).wf(),
        ensures
            final(self).wf(),
            final(self)@ == old(self)@.insert(route.key_text(), Arc::new(route)),
    {
        let key = route.key().clone();
        self.all.insert(key, Arc::new(route));
    }

    /// Takes out the route with the key.
    pub fn remove(&mut self, key: &str)
        requires
            old(self).wf(),
        ensures
            final(self).wf(),
            final(self)@ == old(self)@.remove(key@),
    {
        self.all.remove(key);
    }

    /// Whether a route has the key.
    pub fn contains(&self, key: &str) -> (r: bool)
        requires
            self.wf(),
        ensures
            r == self@.contains_key(key@),
    {
        self.all.contains_key(key)
    }

    /// The route with the key.
    pub fn get(&self, key: &str) -> (r: Option<&Arc<R>>)
        requires
            self.wf(),
        ensures
            match r {
                Some(v) => self@.contains_key(key@) && *v == self@[key@],
                None => !self@.contains_key(key@),
            },
    {
        self.all.get(key)
    }

    /// Whether there are no routes.
    pub fn is_empty(&self) -> (r: bool)
        ensures
            r == (self@ == Map::<Text, Arc<R>>::empty()),
    {
        self.all.is_empty()
    }

    /// A set that shares the routes of this one.
    pub fn share(&self) -> (r: Self)
        ensures
            r@ == self@,
            self.wf() ==> r.wf(),
    {
        Routes { all: self.all.share() }
    }
}

// ---------------------------------------------------------------------------------------------
// Backends
// ---------------------------------------------------------------------------------------------

/// How an MCP target is reached.
#[derive(Debug)]
pub enum McpTargetSpec {
    Sse { backend: SimpleBackendReference, path: String },
    Mcp { backend: SimpleBackendReference, path: String },
    Stdio { cmd: String, args: Vec<String>, env: Vec<(String, String)>, clear_env: bool },
    OpenAPI { backend: SimpleBackendReference, schema: Arc<PolicyBody> },
}

/// What a [`McpTargetSpec`] holds.
#[verifier::ext_equal]
pub enum McpTargetSpecView {
    Sse { backend: SimpleBackendReferenceView, path: Text },
    Mcp { backend: SimpleBackendReferenceView, path: Text },
    Stdio { cmd: Text, args: Seq<Text>, env: Seq<(Text, Text)>, clear_env: bool },
    OpenAPI { backend: SimpleBackendReferenceView, schema: Arc<PolicyBody> },
}

impl View for McpTargetSpec {
    type V = McpTargetSpecView;

    open spec fn view(&self) -> McpTargetSpecView {
        match self {
            McpTargetSpec::Sse { backend, path } => McpTargetSpecView::Sse {
                backend: backend@,
                path: path@,
            },
            McpTargetSpec::Mcp { backend, path } => McpTargetSpecView::Mcp {
                backend: backend@,
                path: path@,
            },
            McpTargetSpec::Stdio { cmd, args, env, clear_env } => McpTargetSpecView::Stdio {
                cmd: cmd@,
                args: texts(args@),
                env: crate::types::policy::pair_texts(env@),
                clear_env: *clear_env,
            },
            McpTargetSpec::OpenAPI { backend, schema } => McpTargetSpecView::OpenAPI {
                backend: backend@,
                schema: *schema,
            },
        }
    }
}

impl McpTargetSpec {
    /// The backend that the target is reached through, if there is one.
    pub fn backend(&self) -> (r: Option<&SimpleBackendReference>)
        ensures
            match self {
                McpTargetSpec::Sse { backend, path: _ } => r == Some(backend),
                McpTargetSpec::Mcp { backend, path: _ } => r == Some(backend),
                McpTargetSpec::Stdio { .. } => r is None,
                McpTargetSpec::OpenAPI { backend, schema: _ } => r == Some(backend),
            },
    {
        match self {
            McpTargetSpec::Sse { backend, path: _ } => Some(backend),
            McpTargetSpec::Mcp { backend, path: _ } => Some(backend),
            McpTargetSpec::Stdio { .. } => None,
            McpTargetSpec::OpenAPI { backend, schema: _ } => Some(backend),
        }
    }
}

/// A named target of an MCP backend.
#[derive(Debug)]
pub struct McpTarget {
    pub name: String,
    pub spec: Arc<McpTargetSpec>,
}

/// What a [`McpTarget`] holds.
#[verifier::ext_equal]
pub struct McpTargetView {
    pub name: Text,
    pub spec: McpTargetSpecView,
}

impl View for McpTarget {
    type V = McpTargetView;

    open spec fn view(&self) -> McpTargetView {
        McpTargetView { name: self.name@, spec: (*self.spec)@ }
    }
}

/// MCP targets behind one endpoint.
#[derive(Debug)]
pub struct McpBackend {
    pub targets: Vec<Arc<McpTarget>>,
    pub stateful: bool,
    pub always_use_prefix: bool,
    pub failure_mode: FailureMode,
    pub session_idle_ttl: Nanos,
}

/// What a [`McpBackend`] holds.
#[verifier::ext_equal]
pub struct McpBackendView {
    pub targets: Seq<McpTargetView>,
    pub stateful: bool,
    pub always_use_prefix: bool,
    pub failure_mode: FailureMode,
    pub session_idle_ttl: Nanos,
}

/// What shared targets hold.
pub open spec fn mcp_target_views(targets: Seq<Arc<McpTarget>>) -> Seq<McpTargetView> {
    targets.map_values(|t: Arc<McpTarget>| (*t)@)
}

impl View for McpBackend {
    type V = McpBackendView;

    open spec fn view(&self) -> McpBackendView {
        McpBackendView {
            targets: mcp_target_views(self.targets@),
            stateful: self.stateful,
            always_use_prefix: self.always_use_prefix,
            failure_mode: self.failure_mode,
            session_idle_ttl: self.session_idle_ttl,
        }
    }
}

/// Where requests are sent.
#[derive(Debug)]
pub enum Backend {
    Service(NamespacedHostname, u16),
    Opaque(ResourceName, Target),
    MCP(ResourceName, McpBackend),
    AI(ResourceName, AIBackend),
    Aws(ResourceName, Arc<PolicyBody>),
    Dynamic(ResourceName),
    Invalid,
}

/// What a [`Backend`] holds.
#[verifier::ext_equal]
pub enum BackendView {
    Service(NamespacedHostnameView, u16),
    Opaque(ResourceNameView, TargetView),
    MCP(ResourceNameView, McpBackendView),
    AI(ResourceNameView, Seq<Seq<(Text, NamedAIProviderView)>>),
    Aws(ResourceNameView, Arc<PolicyBody>),
    Dynamic(ResourceNameView),
    Invalid,
}

impl View for Backend {
    type V = BackendView;

    open spec fn view(&self) -> BackendView {
        match self {
            Backend::Service(n, port) => BackendView::Service(n@, *port),
            Backend::Opaque(n, t) => BackendView::Opaque(n@, t@),
            Backend::MCP(n, m) => BackendView::MCP(n@, m@),
            Backend::AI(n, a) => BackendView::AI(n@, a@),
            Backend::Aws(n, c) => BackendView::Aws(n@, *c),
            Backend::Dynamic(n) => BackendView::Dynamic(n@),
            Backend::Invalid => BackendView::Invalid,
        }
    }
}

impl BackendView {
    /// The name that the backend was given, if it was given one.
    pub open spec fn given_name(self) -> Option<ResourceNameView> {
        match self {
            BackendView::Opaque(n, _) => Some(n),
            BackendView::MCP(n, _) => Some(n),
            BackendView::AI(n, _) => Some(n),
            BackendView::Aws(n, _) => Some(n),
            BackendView::Dynamic(n) => Some(n),
            BackendView::Service(_, _) => None,
            BackendView::Invalid => None,
        }
    }

    /// The key under which the backend is held.
    pub open spec fn name_text(self) -> Text {
        match self {
            BackendView::Service(n, port) => "service/"@ + n.namespace + "/"@ + n.hostname + ":"@
                + crate::text::decimal(port as nat),
            BackendView::Opaque(n, _) => n.full(),
            BackendView::MCP(n, _) => n.full(),
            BackendView::AI(n, _) => n.full(),
            BackendView::Aws(n, _) => n.full(),
            BackendView::Dynamic(n) => n.full(),
            BackendView::Invalid => "invalid"@,
        }
    }
}

impl Backend {
    /// The name that the backend was given, if it was given one.
    pub fn given_name(&self) -> (r: Option<&ResourceName>)
        ensures
            match r {
                Some(n) => self@.given_name() == Some(n@),
                None => self@.given_name() is None,
            },
    {
        match self {
            Backend::Opaque(n, _) => Some(n),
            Backend::MCP(n, _) => Some(n),
            Backend::AI(n, _) => Some(n),
            Backend::Aws(n, _) => Some(n),
            Backend::Dynamic(n) => Some(n),
            Backend::Service(_, _) => None,
            Backend::Invalid => None,
        }
    }

    /// The key under which the backend is held.
    pub fn name(&self) -> (r: BackendKey)
        ensures
            r@ == self@.name_text(),
    {
        match self {
            Backend::Service(n, port) => {
                let place = join4("service/", n.namespace.as_str(), "/", n.hostname.as_str());
                let digits = to_decimal(*port as u64);
                join3(place.as_str(), ":", digits.as_str())
            },
            Backend::Opaque(n, _) => n.to_text(),
            Backend::MCP(n, _) => n.to_text(),
            Backend::AI(n, _) => n.to_text(),
            Backend::Aws(n, _) => n.to_text(),
            Backend::Dynamic(n) => n.to_text(),
            Backend::Invalid => "invalid".to_owned(),
        }
    }
}

/// A backend with its own policies.
#[derive(Debug)]
pub struct BackendWithPolicies {
    pub backend: Backend,
    pub inline_policies: Vec<BackendTrafficPolicy>,
}

/// What a [`BackendWithPolicies`] holds.
#[verifier::ext_equal]
pub struct BackendWithPoliciesView {
    pub backend: BackendView,
    pub inline_policies: Seq<BackendTrafficPolicyView>,
}

impl View for BackendWithPolicies {
    type V = BackendWithPoliciesView;

    open spec fn view(&self) -> BackendWithPoliciesView {
        BackendWithPoliciesView {
            backend: self.backend@,
            inline_policies: views(self.inline_policies@),
        }
    }
}

/// A backend without policies.
pub open spec fn plain_backend(backend: BackendView) -> BackendWithPoliciesView {
    BackendWithPoliciesView { backend, inline_policies: Seq::empty() }
}

impl BackendWithPolicies {
    /// The backend without policies.
    pub fn plain(backend: Backend) -> (r: Self)
        ensures
            r@ == plain_backend(backend@),
            r.backend == backend,
    {
        let r = BackendWithPolicies { backend, inline_policies: Vec::new() };
        assert(r@ =~= plain_backend(backend@));
        r
    }
}

/// A backend that needs no more than a connection.
#[derive(Debug)]
pub enum SimpleBackend {
    Service(NamespacedHostname, u16),
    Opaque(ResourceName, Target),
    Invalid,
}

/// A simple backend with its own policies.
#[derive(Debug)]
pub struct SimpleBackendWithPolicies {
    pub backend: SimpleBackend,
    pub inline_policies: Vec<BackendTrafficPolicy>,
}

impl View for SimpleBackend {
    type V = BackendView;

    open spec fn view(&self) -> BackendView {
        match self {
            SimpleBackend::Service(n, port) => BackendView::Service(n@, *port),
            SimpleBackend::Opaque(n, t) => BackendView::Opaque(n@, t@),
            SimpleBackend::Invalid => BackendView::Invalid,
        }
    }
}

impl View for SimpleBackendWithPolicies {
    type V = BackendWithPoliciesView;

    open spec fn view(&self) -> BackendWithPoliciesView {
        BackendWithPoliciesView {
            backend: self.backend@,
            inline_policies: views(self.inline_policies@),
        }
    }
}

impl SimpleBackendWithPolicies {
    /// The same backend among those of every kind.
    pub fn into_backend(self) -> (r: BackendWithPolicies)
        ensures
            r@ == self@,
    {
        BackendWithPolicies {
            backend: match self.backend {
                SimpleBackend::Service(n, port) => Backend::Service(n, port),
                SimpleBackend::Opaque(n, t) => Backend::Opaque(n, t),
                SimpleBackend::Invalid => Backend::Invalid,
            },
            inline_policies: self.inline_policies,
        }
    }
}

} // verus!
