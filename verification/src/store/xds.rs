//! Resources that a control plane pushes.

use vstd::prelude::*;

use crate::store::binds::Store;
use crate::store::model::{ResourceKind, ResourceKindView, RouteTargetView, StoreView};
use crate::text::Text;
use crate::types::agent::{
    BackendWithPolicies, Bind, BindKey, BindProtocol, BindView, Listener, ListenerKey, Route,
    RouteGroupKey, SocketAddr, TCPRoute, TargetedPolicy, TunnelProtocol,
};

verus! {

/// A bind as a control plane names it.
#[derive(Debug)]
pub struct XdsBind {
    pub key: String,
    pub port: u16,
    pub protocol: BindProtocol,
    pub tunnel_protocol: TunnelProtocol,
}

/// A resource of a control plane with its key, and what decoding it came to.
#[allow(inconsistent_fields)]
#[derive(Debug)]
pub enum XdsResource {
    Bind { key: String, decoded: Result<XdsBind, String> },
    Listener { key: String, decoded: Result<(Listener, BindKey), String> },
    Route { key: String, decoded: Result<(Route, ListenerKey, Option<RouteGroupKey>), String> },
    TcpRoute { key: String, decoded: Result<(TCPRoute, ListenerKey), String> },
    Backend { key: String, decoded: Result<BackendWithPolicies, String> },
    Policy { key: String, decoded: Result<TargetedPolicy, String> },
    Unknown,
}

/// Why a resource of a kind that is not known is refused.
pub open spec fn unknown_resource() -> Text {
    "unknown resource type"@
}

impl XdsResource {
    /// What the resource is stored as, if its kind is known.
    pub open spec fn kind(self) -> Option<ResourceKindView> {
        match self {
            XdsResource::Bind { key, decoded: _ } => Some(ResourceKindView::Bind(key@)),
            XdsResource::Listener { key, decoded: _ } => Some(ResourceKindView::Listener(key@)),
            XdsResource::Route { key, decoded: _ } => Some(ResourceKindView::Route(key@)),
            XdsResource::TcpRoute { key, decoded: _ } => Some(ResourceKindView::TcpRoute(key@)),
            XdsResource::Backend { key, decoded: _ } => Some(ResourceKindView::Backend(key@)),
            XdsResource::Policy { key, decoded: _ } => Some(ResourceKindView::Policy(key@)),
            XdsResource::Unknown => None,
        }
    }

    /// Why the resource is refused, if it is.
    pub open spec fn refusal(self) -> Option<Text> {
        match self {
            XdsResource::Bind { key: _, decoded: Err(e) } => Some(e@),
            XdsResource::Listener { key: _, decoded: Err(e) } => Some(e@),
            XdsResource::Route { key: _, decoded: Err(e) } => Some(e@),
            XdsResource::TcpRoute { key: _, decoded: Err(e) } => Some(e@),
            XdsResource::Backend { key: _, decoded: Err(e) } => Some(e@),
            XdsResource::Policy { key: _, decoded: Err(e) } => Some(e@),
            XdsResource::Unknown => Some(unknown_resource()),
            _ => None,
        }
    }
}

/// What a bind of a control plane comes to.
pub open spec fn xds_bind_view(raw: XdsBind, ipv6_enabled: bool) -> BindView {
    BindView {
        key: raw.key@,
        address: SocketAddr::any_of(ipv6_enabled, raw.port),
        protocol: raw.protocol,
        tunnel_protocol: raw.tunnel_protocol,
        listeners: Map::empty(),
    }
}

/// Where a route goes: into its group if it has one, else on its service, else on its listener.
pub open spec fn route_home(
    route: Route,
    listener: ListenerKey,
    group: Option<RouteGroupKey>,
) -> RouteTargetView {
    match (group, route.service_key) {
        (Some(g), _) => RouteTargetView::RouteGroup(g@),
        (None, Some(s)) => RouteTargetView::Service(s@),
        (None, None) => RouteTargetView::Listener(listener@),
    }
}

/// Where a TCP route goes: on its service if it has one, else on its listener.
pub open spec fn tcp_route_home(route: TCPRoute, listener: ListenerKey) -> RouteTargetView {
    match route.service_key {
        Some(s) => RouteTargetView::Service(s@),
        None => RouteTargetView::Listener(listener@),
    }
}

impl StoreView {
    /// Puts a bind of a control plane in place. If it is there already, it keeps its listeners.
    pub open spec fn insert_xds_bind(self, raw: XdsBind) -> StoreView {
        let bind = xds_bind_view(raw, self.ipv6_enabled);
        self.insert_bind(
            if self.binds.contains_key(bind.key) {
                BindView { listeners: self.binds[bind.key].listeners, ..bind }
            } else {
                bind
            },
        )
    }

    /// Stores a resource whose name is noted already.
    pub open spec fn store_resource(self, res: XdsResource) -> StoreView {
        match res {
            XdsResource::Bind { key: _, decoded: Ok(raw) } => self.insert_xds_bind(raw),
            XdsResource::Listener { key: _, decoded: Ok((l, bind)) } => self.insert_listener(
                l@,
                bind@,
            ),
            XdsResource::Route { key: _, decoded: Ok((route, listener, group)) } =>
                self.insert_http_route(route_home(route, listener, group), route),
            XdsResource::TcpRoute { key: _, decoded: Ok((route, listener)) } =>
                self.insert_tcp_route(tcp_route_home(route, listener), route),
            XdsResource::Backend { key, decoded: Ok(b) } => self.insert_backend(key@, b),
            XdsResource::Policy { key: _, decoded: Ok(p) } => self.insert_policy(p),
            _ => self,
        }
    }

    /// Takes a resource in: notes its name, then stores it. A resource that could not be decoded
    /// is only noted, and one of a kind that is not known is not even that.
    pub open spec fn insert_xds(self, name: Text, res: XdsResource) -> StoreView {
        match res.kind() {
            Some(kind) => self.note_resource(name, kind).store_resource(res),
            None => self,
        }
    }
}

/// A control plane that names a bind again does not lose the bind's listeners.
pub proof fn bind_update_keeps_listeners(s: StoreView, raw: XdsBind)
    requires
        s.inv(),
        s.binds.contains_key(raw.key@),
    ensures
        s.insert_xds_bind(raw).binds[raw.key@].listeners == s.binds[raw.key@].listeners,
        s.insert_xds_bind(raw).epoch == s.epoch,
{
    let key = raw.key@;
    assert(!s.pending.contains_key(key));
    assert(s.binds[key].listeners.union_prefer_right(Map::empty()) =~= s.binds[key].listeners);
}

impl Store {
    /// Puts a bind of a control plane in place. If it is there already, it keeps its listeners.
    pub fn insert_xds_bind(&mut self, raw: XdsBind)
        requires
            old(self).wf(),
        ensures
            final(self).wf(),
            final(self)@ == old(self)@.insert_xds_bind(raw),
    {
        let ghost given = raw;
        let mut bind = Bind::from_xds(
            raw.key,
            raw.port,
            raw.protocol,
            raw.tunnel_protocol,
            self.ipv6(),
        );
        let ghost plain = bind@;
        assert(plain =~= xds_bind_view(given, self@.ipv6_enabled));
        match self.bind(&bind.key) {
            Some(old_bind) => {
                bind.listeners = old_bind.listeners.share();
                assert(bind@ =~= (BindView { listeners: (*old_bind)@.listeners, ..plain }));
            },
            None => {},
        }
        self.insert_bind(bind);
    }

    /// Takes a resource in. It is refused if it could not be decoded or if its kind is not known.
    pub fn insert_xds(&mut self, name: String, res: XdsResource) -> (r: Result<(), String>)
        requires
            old(self).wf(),
        ensures
            final(self).wf(),
            final(self)@ == old(self)@.insert_xds(name@, res),
            match r {
                Ok(_) => res.refusal() is None,
                Err(e) => res.refusal() == Some(e@),
            },
    {
        match res {
            XdsResource::Bind { key, decoded } => {
                self.note_resource(name, ResourceKind::Bind(key));
                match decoded {
                    Ok(raw) => {
                        self.insert_xds_bind(raw);
                        Ok(())
                    },
                    Err(e) => Err(e),
                }
            },
            XdsResource::Listener { key, decoded } => {
                self.note_resource(name, ResourceKind::Listener(key));
                match decoded {
                    Ok((listener, bind)) => {
                        self.insert_listener(listener, bind);
                        Ok(())
                    },
                    Err(e) => Err(e),
                }
            },
            XdsResource::Route { key, decoded } => {
                self.note_resource(name, ResourceKind::Route(key));
                match decoded {
                    Ok((route, listener, group)) => {
                        self.insert_xds_route(route, listener, group);
                        Ok(())
                    },
                    Err(e) => Err(e),
                }
            },
            XdsResource::TcpRoute { key, decoded } => {
                self.note_resource(name, ResourceKind::TcpRoute(key));
                match decoded {
                    Ok((route, listener)) => {
                        self.insert_xds_tcp_route(route, listener);
                        Ok(())
                    },
                    Err(e) => Err(e),
                }
            },
            XdsResource::Backend { key, decoded } => {
                self.note_resource(name, ResourceKind::Backend(key.clone()));
                match decoded {
                    Ok(b) => {
                        self.insert_backend(key, b);
                        Ok(())
                    },
                    Err(e) => Err(e),
                }
            },
            XdsResource::Policy { key, decoded } => {
                self.note_resource(name, ResourceKind::Policy(key));
                match decoded {
                    Ok(p) => {
                        self.insert_policy(p);
                        Ok(())
                    },
                    Err(e) => Err(e),
                }
            },
            XdsResource::Unknown => Err("unknown resource type".to_owned()),
        }
    }

    /// Puts a decoded route in place. The group comes first: a route of a group that names a
    /// service does so for the sake of its policies.
    pub fn insert_xds_route(
        &mut self,
        route: Route,
        listener: ListenerKey,
        group: Option<RouteGroupKey>,
    )
        requires
            old(self).wf(),
        ensures
            final(self).wf(),
            final(self)@ == old(self)@.insert_http_route(route_home(route, listener, group), route),
    {
        match group {
            Some(g) => self.insert_route_into_group(route, g),
            None => {
                let service = match &route.service_key {
                    Some(s) => Some(s.copy()),
                    None => None,
                };
                match service {
                    Some(s) => self.insert_service_route(route, s),
                    None => self.insert_route(route, listener),
                }
            },
        }
    }

    /// Puts a decoded TCP route in place.
    pub fn insert_xds_tcp_route(&mut self, route: TCPRoute, listener: ListenerKey)
        requires
            old(self).wf(),
        ensures
            final(self).wf(),
            final(self)@ == old(self)@.insert_tcp_route(tcp_route_home(route, listener), route),
    {
        let service = match &route.service_key {
            Some(s) => Some(s.copy()),
            None => None,
        };
        match service {
            Some(s) => self.insert_service_tcp_route(route, s),
            None => self.insert_tcp_route(route, listener),
        }
    }
}

/// A change that a control plane pushes. An update carries what decoding it warned of.
#[derive(Debug)]
pub enum XdsUpdate {
    Update { name: String, resource: XdsResource, warnings: Vec<String> },
    Remove(String),
}

/// Something that the control plane is told about one of its resources.
#[derive(Debug)]
pub struct RejectedConfig {
    pub name: String,
    pub message: String,
    /// The resource was taken in all the same.
    pub warning: bool,
}

/// What a [`RejectedConfig`] holds.
pub struct RejectedConfigView {
    pub name: Text,
    pub message: Text,
    pub warning: bool,
}

impl View for RejectedConfig {
    type V = RejectedConfigView;

    open spec fn view(&self) -> RejectedConfigView {
        RejectedConfigView {
            name: self.name@,
            message: self.message@,
            warning: self.warning,
        }
    }
}

/// The store after a sequence of changes.
pub open spec fn after_updates(s: StoreView, updates: Seq<XdsUpdate>) -> StoreView
    decreases updates.len(),
{
    if updates.len() == 0 {
        s
    } else {
        let before = after_updates(s, updates.drop_last());
        match updates.last() {
            XdsUpdate::Update { name, resource, warnings: _ } => before.insert_xds(name@, resource),
            XdsUpdate::Remove(name) => before.remove_resource(name@),
        }
    }
}

/// The warnings about a resource.
pub open spec fn warnings_about(name: Text, warnings: Seq<String>) -> Seq<RejectedConfigView> {
    warnings.map_values(
        |w: String| RejectedConfigView { name, message: w@, warning: true },
    )
}

/// What the control plane is told after a sequence of changes: of a resource that is refused the
/// reason, of one that is taken in the warnings.
pub open spec fn rejections(updates: Seq<XdsUpdate>) -> Seq<RejectedConfigView>
    decreases updates.len(),
{
    if updates.len() == 0 {
        Seq::empty()
    } else {
        let before = rejections(updates.drop_last());
        match updates.last() {
            XdsUpdate::Update { name, resource, warnings } => match resource.refusal() {
                Some(message) => before.push(
                    RejectedConfigView { name: name@, message, warning: false },
                ),
                None => before + warnings_about(name@, warnings@),
            },
            XdsUpdate::Remove(_) => before,
        }
    }
}

fn add_warnings(rejects: &mut Vec<RejectedConfig>, name: &String, warnings: Vec<String>)
    ensures
        crate::text::views(final(rejects)@) == crate::text::views(old(rejects)@) + warnings_about(
            name@,
            warnings@,
        ),
{
    let ghost before = crate::text::views(rejects@);
    let ghost all = warnings@;
    for w in it: warnings.into_iter()
        invariant
            it.seq() == all,
            crate::text::views(rejects@) == before + warnings_about(
                name@,
                all.take(it.index() as int),
            ),
    {
        let ghost n = it.index() as int;
        let ghost held = rejects@;
        rejects.push(RejectedConfig { name: name.clone(), message: w, warning: true });
        proof {
            assert(crate::text::views(rejects@) =~= crate::text::views(held).push(
                RejectedConfigView { name: name@, message: w@, warning: true },
            ));
            assert(crate::text::views(rejects@) =~= before + warnings_about(
                name@,
                all.take(n + 1),
            ));
        }
    }
    assert(all.take(all.len() as int) =~= all);
}

impl Store {
    /// Applies the changes that a control plane pushes, one after the other. A change that is
    /// refused does not keep the others back.
    pub fn handle(&mut self, updates: Vec<XdsUpdate>) -> (r: Result<(), Vec<RejectedConfig>>)
        requires
            old(self).wf(),
        ensures
            final(self).wf(),
            final(self)@ == after_updates(old(self)@, updates@),
            match r {
                Ok(_) => rejections(updates@).len() == 0,
                Err(rejects) => rejections(updates@).len() > 0 && crate::text::views(rejects@)
                    == rejections(updates@),
            },
    {
        let ghost start = self@;
        let ghost all = updates@;
        let mut rejects: Vec<RejectedConfig> = Vec::new();
        assert(crate::text::views(rejects@) =~= Seq::<RejectedConfigView>::empty());
        for update in it: updates.into_iter()
            invariant
                it.seq() == all,
                self.wf(),
                self@ == after_updates(start, all.take(it.index() as int)),
                crate::text::views(rejects@) == rejections(all.take(it.index() as int)),
        {
            let ghost n = it.index() as int;
            let ghost held = rejects@;
            proof {
                assert(all.take(n + 1).drop_last() =~= all.take(n));
                assert(all.take(n + 1).last() == update);
            }
            match update {
                XdsUpdate::Update { name, resource, warnings } => {
                    match self.insert_xds(name.clone(), resource) {
                        Ok(_) => {
                            add_warnings(&mut rejects, &name, warnings);
                        },
                        Err(message) => {
                            rejects.push(RejectedConfig { name, message, warning: false });
                            proof {
                                assert(crate::text::views(rejects@) =~= crate::text::views(
                                    held,
                                ).push(
                                    RejectedConfigView {
                                        name: name@,
                                        message: message@,
                                        warning: false,
                                    },
                                ));
                            }
                        },
                    }
                },
                XdsUpdate::Remove(name) => {
                    self.remove_resource(name.as_str());
                },
            }
        }
        assert(all.take(all.len() as int) =~= all);
        if rejects.len() == 0 {
            Ok(())
        } else {
            Err(rejects)
        }
    }
}

} // verus!
