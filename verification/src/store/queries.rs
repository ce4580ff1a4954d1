//! Which policies apply to a connection, a request or a call of a backend.

use std::sync::Arc;

use vstd::prelude::*;

use crate::store::binds::{same_allocation, Store};
use crate::store::model::{
    before_routing, distinct, gather, keys_at, lemma_gather_concat, on_backends, on_frontends,
    on_routes, parent_gateway, reversed_concat, route_name_views, slice_views, unique_texts,
    StoreView,
};
use crate::store::policies::{
    BackendPolicies, FrontendPolices, FrontendPolicesView, GatewayPolicies, RoutePath,
    RoutePolicies,
};
use crate::store::selection::{
    add_backend_rule, add_backend_rules, add_gateway_rule, add_route_rule, add_route_rules,
    backend_policies_of, backend_selects, empty_backend_policies, empty_gateway_policies,
    empty_route_policies, finish_backend_policies, finish_route_policies, gateway_policies_of,
    route_policies_of, route_selects,
};
use crate::target_table::{target_id, TargetKey};
use crate::text::{texts, Text};
use crate::types::agent::{
    without_section, BackendTargetRef, ListenerName, ListenerNameView, PolicyTargetRef,
    PolicyTargetView, RouteName, RouteNameView, TargetedPolicy,
};
use crate::types::frontend::{AccessLogPolicy, FrontendPolicy};
use crate::types::policy::RuleSet;
use crate::types::traffic::{BackendTrafficPolicy, PolicyType, TrafficPolicy};

verus! {

/// One more key adds the policy behind it.
proof fn lemma_gather_push<X>(
    policies: Map<Text, Arc<TargetedPolicy>>,
    keys: Seq<Text>,
    i: int,
    pick: spec_fn(PolicyType) -> Option<X>,
)
    requires
        0 <= i < keys.len(),
    ensures
        gather(policies, keys.take(i + 1), pick) == (if policies.contains_key(keys[i]) {
            match pick(policies[keys[i]].policy) {
                Some(x) => gather(policies, keys.take(i), pick).push(x),
                None => gather(policies, keys.take(i), pick),
            }
        } else {
            gather(policies, keys.take(i), pick)
        }),
{
    assert(keys.take(i + 1).drop_last() =~= keys.take(i));
    assert(keys.take(i + 1).last() == keys[i]);
}

impl Store {
    /// Adds the rules that the policies of a target hold for routes.
    fn add_attached_route_rules(
        &self,
        target: &TargetKey,
        pol: &mut RoutePolicies,
        authz: &mut Vec<Arc<RuleSet>>,
        Ghost(rules): Ghost<Seq<TrafficPolicy>>,
    )
        requires
            self.wf(),
            route_selects(*old(pol), old(authz)@, rules),
            old(pol).authorization is Unset,
        ensures
            route_selects(
                *final(pol),
                final(authz)@,
                rules + gather(
                    self@.policies,
                    keys_at(self@.by_target, target_id(*target)),
                    on_routes(),
                ),
            ),
            final(pol).authorization is Unset,
    {
        let ghost keys = keys_at(self@.by_target, target_id(*target));
        match self.attached_keys(target) {
            Some(set) => {
                let mut i: usize = 0;
                assert(rules + gather(self@.policies, keys.take(0), on_routes()) =~= rules);
                while i < set.len()
                    invariant
                        self.wf(),
                        set.items() == keys,
                        i <= keys.len(),
                        route_selects(
                            *pol,
                            authz@,
                            rules + gather(self@.policies, keys.take(i as int), on_routes()),
                        ),
                        pol.authorization is Unset,
                    decreases keys.len() - i,
                {
                    proof {
                        lemma_gather_push(self@.policies, keys, i as int, on_routes());
                    }
                    let ghost before = gather(self@.policies, keys.take(i as int), on_routes());
                    match self.policy(set.item_at(i).as_str()) {
                        Some(p) => {
                            match p.policy.as_traffic_route_phase() {
                                Some(rule) => {
                                    add_route_rule(pol, authz, rule, Ghost(rules + before));
                                    assert((rules + before).push(*rule) =~= rules + before.push(
                                        *rule,
                                    ));
                                },
                                None => {},
                            }
                        },
                        None => {},
                    }
                    i = i + 1;
                }
                assert(keys.take(i as int) =~= keys);
            },
            None => {
                assert(rules + gather(self@.policies, keys, on_routes()) =~= rules);
            },
        }
    }

    /// The policies of a request that took the path. Among rules of one kind the first takes
    /// effect, in this order: inline rules of the last route, rules attached to it, then the same
    /// of the routes before it, then those of the service, the listener and the gateway. All
    /// authorization rules count.
    pub fn route_policies(&self, path: &RoutePath<'_>, inline: &[&[TrafficPolicy]]) -> (r:
        RoutePolicies)
        requires
            self.wf(),
        ensures
            route_policies_of(r, self@.route_rules(path@, slice_views(inline@))),
    {
        let ghost v = self@;
        let ghost names = path@.routes;
        let ghost lists = slice_views(inline@);
        let mut authz: Vec<Arc<RuleSet>> = Vec::new();
        let mut pol = empty_route_policies();
        let mut i: usize = path.routes.len();
        assert(authz@ =~= Seq::<Arc<RuleSet>>::empty());
        while i > 0
            invariant
                self.wf(),
                v == self@,
                names == route_name_views(path.routes@),
                lists == slice_views(inline@),
                i <= names.len(),
                route_selects(pol, authz@, v.route_levels(names, lists, i as int)),
                pol.authorization is Unset,
            decreases i,
        {
            i = i - 1;
            let ghost rules = v.route_levels(names, lists, i as int + 1);
            let ghost own = if i < lists.len() {
                lists[i as int]
            } else {
                Seq::empty()
            };
            let route = path.routes[i];
            assert(names[i as int] == (*route)@);
            if i < inline.len() {
                add_route_rules(&mut pol, &mut authz, inline[i], Ghost(rules));
            }
            assert(i >= inline@.len() ==> rules + own =~= rules);
            assert(route_selects(pol, authz@, rules + own));
            let rule_target = route.as_route_rule_target_ref().key();
            self.add_attached_route_rules(&rule_target, &mut pol, &mut authz, Ghost(rules + own));
            let ghost with_rule = rules + own + gather(
                v.policies,
                keys_at(v.by_target, target_id(rule_target)),
                on_routes(),
            );
            let route_target = route.as_route_target_ref().key();
            self.add_attached_route_rules(&route_target, &mut pol, &mut authz, Ghost(with_rule));
            assert(with_rule + gather(
                v.policies,
                keys_at(v.by_target, target_id(route_target)),
                on_routes(),
            ) =~= rules + v.route_level(names[i as int], own));
        }
        let ghost rules = v.route_levels(names, lists, 0);
        let ghost service = v.attached_to_service(path@.service);
        let ghost listener = v.attached_to_listener(path@.listener);
        let ghost gateway = v.attached_to_gateway(path@.listener);
        match path.service {
            Some(s) => {
                let target = s.as_policy_target_ref().key();
                self.add_attached_route_rules(&target, &mut pol, &mut authz, Ghost(rules));
            },
            None => {
                assert(rules + gather(v.policies, service, on_routes()) =~= rules);
            },
        }
        let ghost rules1 = rules + gather(v.policies, service, on_routes());
        let target = path.listener.as_listener_target_ref().key();
        self.add_attached_route_rules(&target, &mut pol, &mut authz, Ghost(rules1));
        let ghost rules2 = rules1 + gather(v.policies, listener, on_routes());
        let target = path.listener.as_gateway_target_ref().key();
        self.add_attached_route_rules(&target, &mut pol, &mut authz, Ghost(rules2));
        let ghost rules3 = rules2 + gather(v.policies, gateway, on_routes());
        proof {
            lemma_gather_concat(v.policies, service, listener, on_routes());
            lemma_gather_concat(v.policies, service + listener, gateway, on_routes());
            assert(rules3 =~= v.route_rules(path@, lists));
        }
        finish_route_policies(pol, authz, Ghost(rules3))
    }

    /// Adds the rules that the policies of a target hold for the time before routing.
    fn add_attached_gateway_rules(
        &self,
        target: &TargetKey,
        pol: &mut GatewayPolicies,
        Ghost(rules): Ghost<Seq<TrafficPolicy>>,
    )
        requires
            self.wf(),
            gateway_policies_of(*old(pol), rules),
        ensures
            gateway_policies_of(
                *final(pol),
                rules + gather(
                    self@.policies,
                    keys_at(self@.by_target, target_id(*target)),
                    before_routing(),
                ),
            ),
    {
        let ghost keys = keys_at(self@.by_target, target_id(*target));
        match self.attached_keys(target) {
            Some(set) => {
                let mut i: usize = 0;
                assert(rules + gather(self@.policies, keys.take(0), before_routing()) =~= rules);
                while i < set.len()
                    invariant
                        self.wf(),
                        set.items() == keys,
                        i <= keys.len(),
                        gateway_policies_of(
                            *pol,
                            rules + gather(self@.policies, keys.take(i as int), before_routing()),
                        ),
                    decreases keys.len() - i,
                {
                    proof {
                        lemma_gather_push(self@.policies, keys, i as int, before_routing());
                    }
                    let ghost before = gather(
                        self@.policies,
                        keys.take(i as int),
                        before_routing(),
                    );
                    match self.policy(set.item_at(i).as_str()) {
                        Some(p) => {
                            match p.policy.as_traffic_gateway_phase() {
                                Some(rule) => {
                                    add_gateway_rule(pol, rule, Ghost(rules + before));
                                    assert((rules + before).push(*rule) =~= rules + before.push(
                                        *rule,
                                    ));
                                },
                                None => {},
                            }
                        },
                        None => {},
                    }
                    i = i + 1;
                }
                assert(keys.take(i as int) =~= keys);
            },
            None => {
                assert(rules + gather(self@.policies, keys, before_routing()) =~= rules);
            },
        }
    }

    /// The policies of a request at a listener before a route is chosen. Among rules of one kind
    /// the first takes effect: those of the listener, of its section of the listener set, of the
    /// listener set, of the gateway.
    pub fn gateway_policies(&self, name: &ListenerName) -> (r: GatewayPolicies)
        requires
            self.wf(),
        ensures
            gateway_policies_of(r, self@.gateway_rules(name@)),
    {
        let ghost v = self@;
        let ghost listener = v.attached_to_listener(name@);
        let ghost section = v.attached_to_listener_set(name@, true);
        let ghost set = v.attached_to_listener_set(name@, false);
        let ghost gateway = v.attached_to_gateway(name@);
        let mut pol = empty_gateway_policies();
        let ghost none = Seq::<TrafficPolicy>::empty();
        let target = name.as_listener_target_ref().key();
        self.add_attached_gateway_rules(&target, &mut pol, Ghost(none));
        let ghost rules1 = none + gather(v.policies, listener, before_routing());
        match name.as_listenerset_listener_target_ref() {
            Some(t) => {
                let target = t.key();
                self.add_attached_gateway_rules(&target, &mut pol, Ghost(rules1));
            },
            None => {
                assert(rules1 + gather(v.policies, section, before_routing()) =~= rules1);
            },
        }
        let ghost rules2 = rules1 + gather(v.policies, section, before_routing());
        match name.as_listenerset_target_ref() {
            Some(t) => {
                let target = t.key();
                self.add_attached_gateway_rules(&target, &mut pol, Ghost(rules2));
            },
            None => {
                assert(rules2 + gather(v.policies, set, before_routing()) =~= rules2);
            },
        }
        let ghost rules3 = rules2 + gather(v.policies, set, before_routing());
        let target = name.as_gateway_target_ref().key();
        self.add_attached_gateway_rules(&target, &mut pol, Ghost(rules3));
        proof {
            lemma_gather_concat(v.policies, listener, section, before_routing());
            lemma_gather_concat(v.policies, listener + section, set, before_routing());
            lemma_gather_concat(v.policies, listener + section + set, gateway, before_routing());
            assert(rules3 + gather(v.policies, gateway, before_routing()) =~= v.gateway_rules(
                name@,
            ));
        }
        pol
    }

    /// Appends the keys of the policies of a target.
    fn push_attached_keys(&self, target: &TargetKey, out: &mut Vec<String>)
        requires
            self.wf(),
        ensures
            texts(final(out)@) == texts(old(out)@) + keys_at(self@.by_target, target_id(*target)),
    {
        let ghost keys = keys_at(self@.by_target, target_id(*target));
        let ghost before = texts(out@);
        match self.attached_keys(target) {
            Some(set) => {
                let mut i: usize = 0;
                assert(before + keys.take(0) =~= before);
                while i < set.len()
                    invariant
                        set.items() == keys,
                        i <= keys.len(),
                        texts(out@) == before + keys.take(i as int),
                    decreases keys.len() - i,
                {
                    let ghost held = out@;
                    out.push(set.item_at(i).clone());
                    assert(texts(out@) =~= texts(held).push(keys[i as int]));
                    i = i + 1;
                    assert(texts(out@) =~= before + keys.take(i as int));
                }
                assert(keys.take(i as int) =~= keys);
            },
            None => {
                assert(before + keys =~= before);
            },
        }
    }

    /// The policies of a call of a backend. Among rules of one kind the first takes effect: inline
    /// rules, the last list first, then those attached to the routes, the last route first, to the
    /// section of the backend, to the backend, to the listener and to the gateway. All MCP
    /// authorization rules count.
    fn internal_backend_policies(
        &self,
        backend: Option<BackendTargetRef<'_>>,
        sub_backend: Option<BackendTargetRef<'_>>,
        inline_policies: &[&[BackendTrafficPolicy]],
        gateway: Option<&ListenerName>,
        routes: &[&RouteName],
    ) -> (r: BackendPolicies)
        requires
            self.wf(),
        ensures
            backend_policies_of(
                r,
                self@.backend_rules(
                    opt_target(backend),
                    opt_target(sub_backend),
                    slice_views(inline_policies@),
                    opt_listener(gateway),
                    route_name_views(routes@),
                ),
            ),
    {
        let ghost v = self@;
        let ghost names = route_name_views(routes@);
        let ghost lists = slice_views(inline_policies@);
        let mut keys: Vec<String> = Vec::new();
        let mut i: usize = routes.len();
        assert(texts(keys@) =~= Seq::<Text>::empty());
        while i > 0
            invariant
                self.wf(),
                v == self@,
                names == route_name_views(routes@),
                i <= names.len(),
                texts(keys@) == v.route_keys(names, i as int),
            decreases i,
        {
            i = i - 1;
            let route = routes[i];
            assert(names[i as int] == (*route)@);
            let target = route.as_route_rule_target_ref().key();
            self.push_attached_keys(&target, &mut keys);
            let target = route.as_route_target_ref().key();
            self.push_attached_keys(&target, &mut keys);
        }
        let ghost k0 = v.route_keys(names, 0);
        let ghost k1 = k0 + v.attached_to_backend(opt_target(sub_backend));
        match sub_backend {
            Some(t) => {
                let target = PolicyTargetRef::Backend(t).key();
                self.push_attached_keys(&target, &mut keys);
            },
            None => {
                assert(k1 =~= k0);
            },
        }
        let ghost k2 = k1 + v.attached_to_backend(opt_target(backend));
        match backend {
            Some(t) => {
                let target = PolicyTargetRef::Backend(t).key();
                self.push_attached_keys(&target, &mut keys);
            },
            None => {
                assert(k2 =~= k1);
            },
        }
        let ghost levels = match opt_listener(gateway) {
            Some(l) => v.attached_to_listener(l) + v.attached_to_gateway(l),
            None => Seq::empty(),
        };
        let ghost k3 = k2 + levels;
        match gateway {
            Some(name) => {
                let target = name.as_listener_target_ref().key();
                self.push_attached_keys(&target, &mut keys);
                let target = name.as_gateway_target_ref().key();
                self.push_attached_keys(&target, &mut keys);
                assert(texts(keys@) =~= k3);
            },
            None => {
                assert(k3 =~= k2);
            },
        }
        let keys = unique_texts(keys);
        let ghost once = texts(keys@);

        let mut mcp_authz: Vec<Arc<RuleSet>> = Vec::new();
        let mut pol = empty_backend_policies();
        let mut j: usize = inline_policies.len();
        assert(mcp_authz@ =~= Seq::<Arc<RuleSet>>::empty());
        while j > 0
            invariant
                lists == slice_views(inline_policies@),
                j <= lists.len(),
                backend_selects(pol, mcp_authz@, reversed_concat(lists, j as int)),
                pol.mcp_authorization is None,
            decreases j,
        {
            j = j - 1;
            let ghost rules = reversed_concat(lists, j as int + 1);
            assert(lists[j as int] == inline_policies@[j as int]@);
            add_backend_rules(&mut pol, &mut mcp_authz, inline_policies[j], Ghost(rules));
        }
        let ghost inline = reversed_concat(lists, 0);
        let mut n: usize = 0;
        assert(inline + gather(v.policies, once.take(0), on_backends()) =~= inline);
        while n < keys.len()
            invariant
                self.wf(),
                v == self@,
                once == texts(keys@),
                n <= once.len(),
                backend_selects(
                    pol,
                    mcp_authz@,
                    inline + gather(v.policies, once.take(n as int), on_backends()),
                ),
                pol.mcp_authorization is None,
            decreases once.len() - n,
        {
            proof {
                lemma_gather_push(v.policies, once, n as int, on_backends());
            }
            let ghost before = gather(v.policies, once.take(n as int), on_backends());
            match self.policy(keys[n].as_str()) {
                Some(p) => {
                    match p.policy.as_backend() {
                        Some(rule) => {
                            add_backend_rule(
                                &mut pol,
                                &mut mcp_authz,
                                rule,
                                Ghost(inline + before),
                            );
                            assert((inline + before).push(*rule) =~= inline + before.push(*rule));
                        },
                        None => {},
                    }
                },
                None => {},
            }
            n = n + 1;
        }
        assert(once.take(n as int) =~= once);
        finish_backend_policies(
            pol,
            mcp_authz,
            Ghost(inline + gather(v.policies, once, on_backends())),
        )
    }

    /// The policies of a target within a backend. They are looked up apart from those of the
    /// backend and then merged, since the target is chosen later.
    pub fn sub_backend_policies(
        &self,
        sub_backend: BackendTargetRef<'_>,
        inline_policies: Option<&[BackendTrafficPolicy]>,
    ) -> (r: BackendPolicies)
        requires
            self.wf(),
        ensures
            backend_policies_of(
                r,
                self@.backend_rules(
                    None,
                    Some(sub_backend.target()),
                    match inline_policies {
                        Some(list) => seq![list@],
                        None => Seq::empty(),
                    },
                    None,
                    Seq::empty(),
                ),
            ),
    {
        let routes: Vec<&RouteName> = Vec::new();
        assert(route_name_views(routes@) =~= Seq::<RouteNameView>::empty());
        match inline_policies {
            Some(list) => {
                let lists: Vec<&[BackendTrafficPolicy]> = vec![list];
                assert(slice_views(lists@) =~= seq![list@]);
                self.internal_backend_policies(
                    None,
                    Some(sub_backend),
                    lists.as_slice(),
                    None,
                    routes.as_slice(),
                )
            },
            None => {
                let lists: Vec<&[BackendTrafficPolicy]> = Vec::new();
                assert(slice_views(lists@) =~= Seq::<Seq<BackendTrafficPolicy>>::empty());
                self.internal_backend_policies(
                    None,
                    Some(sub_backend),
                    lists.as_slice(),
                    None,
                    routes.as_slice(),
                )
            },
        }
    }

    /// The policies of a list of inline policies.
    pub fn inline_backend_policies(&self, inline_policies: &[BackendTrafficPolicy]) -> (r:
        BackendPolicies)
        requires
            self.wf(),
        ensures
            backend_policies_of(r, inline_policies@),
    {
        let routes: Vec<&RouteName> = Vec::new();
        assert(route_name_views(routes@) =~= Seq::<RouteNameView>::empty());
        let lists: Vec<&[BackendTrafficPolicy]> = vec![inline_policies];
        proof {
            let one = slice_views(lists@);
            assert(one =~= seq![inline_policies@]);
            reveal_with_fuel(reversed_concat, 2);
            reveal_with_fuel(distinct, 2);
            assert(self@.route_keys(Seq::empty(), 0) =~= Seq::<Text>::empty());
            let none = self@.route_keys(Seq::empty(), 0) + self@.attached_to_backend(None)
                + self@.attached_to_backend(None) + Seq::<Text>::empty();
            assert(none =~= Seq::<Text>::empty());
            assert(self@.backend_rules(None, None, one, None, Seq::empty())
                =~= inline_policies@);
        }
        self.internal_backend_policies(None, None, lists.as_slice(), None, routes.as_slice())
    }

    /// The policies of a call of a backend by a request that took the path.
    pub fn backend_policies(
        &self,
        backend: BackendTargetRef<'_>,
        inline_policies: &[&[BackendTrafficPolicy]],
        path: Option<RoutePath<'_>>,
    ) -> (r: BackendPolicies)
        requires
            self.wf(),
        ensures
            backend_policies_of(
                r,
                self@.backend_rules(
                    Some(without_section(backend.target())),
                    Some(backend.target()),
                    slice_views(inline_policies@),
                    match path {
                        Some(p) => Some(p@.listener),
                        None => None,
                    },
                    match path {
                        Some(p) => p@.routes,
                        None => Seq::empty(),
                    },
                ),
            ),
    {
        match &path {
            Some(p) => self.internal_backend_policies(
                Some(backend.strip_section()),
                Some(backend),
                inline_policies,
                Some(p.listener),
                p.routes.as_slice(),
            ),
            None => {
                let routes: Vec<&RouteName> = Vec::new();
                assert(route_name_views(routes@) =~= Seq::<RouteNameView>::empty());
                self.internal_backend_policies(
                    Some(backend.strip_section()),
                    Some(backend),
                    inline_policies,
                    None,
                    routes.as_slice(),
                )
            },
        }
    }

    /// Adds the frontend rules that the policies of a target hold.
    fn add_attached_frontend_rules(
        &self,
        target: &TargetKey,
        pol: &mut FrontendPolices,
        Ghost(rules): Ghost<Seq<FrontendPolicy>>,
    )
        requires
            self.wf(),
            old(pol)@ == FrontendPolicesView::of(rules),
        ensures
            final(pol)@ == FrontendPolicesView::of(
                rules + gather(
                    self@.policies,
                    keys_at(self@.by_target, target_id(*target)),
                    on_frontends(),
                ),
            ),
    {
        let ghost keys = keys_at(self@.by_target, target_id(*target));
        match self.attached_keys(target) {
            Some(set) => {
                let mut i: usize = 0;
                assert(rules + gather(self@.policies, keys.take(0), on_frontends()) =~= rules);
                while i < set.len()
                    invariant
                        self.wf(),
                        set.items() == keys,
                        i <= keys.len(),
                        pol@ == FrontendPolicesView::of(
                            rules + gather(self@.policies, keys.take(i as int), on_frontends()),
                        ),
                    decreases keys.len() - i,
                {
                    proof {
                        lemma_gather_push(self@.policies, keys, i as int, on_frontends());
                    }
                    let ghost before = gather(self@.policies, keys.take(i as int), on_frontends());
                    match self.policy(set.item_at(i).as_str()) {
                        Some(p) => {
                            match p.policy.as_frontend() {
                                Some(rule) => {
                                    pol.set_if_empty(rule);
                                    assert((rules + before.push(*rule)).drop_last() =~= rules
                                        + before);
                                },
                                None => {},
                            }
                        },
                        None => {},
                    }
                    i = i + 1;
                }
                assert(keys.take(i as int) =~= keys);
            },
            None => {
                assert(rules + gather(self@.policies, keys, on_frontends()) =~= rules);
            },
        }
    }

    /// The policies of connections to a target. A port of a gateway inherits those of the gateway.
    pub fn frontend_policies(&self, gateway: PolicyTargetRef<'_>) -> (r: FrontendPolices)
        requires
            self.wf(),
        ensures
            r@ == FrontendPolicesView::of(self@.frontend_rules(gateway.target())),
    {
        let ghost v = self@;
        let ghost own = v.attached(gateway.id());
        let mut pol = FrontendPolices::empty();
        let ghost none = Seq::<FrontendPolicy>::empty();
        let target = gateway.key();
        self.add_attached_frontend_rules(&target, &mut pol, Ghost(none));
        let ghost rules = none + gather(v.policies, own, on_frontends());
        proof {
            assert(own + Seq::<Text>::empty() =~= own);
            assert(rules =~= gather(v.policies, own, on_frontends()));
        }
        match gateway {
            PolicyTargetRef::Gateway {
                gateway_name,
                gateway_namespace,
                listener_name: None,
                port: Some(_),
            } => {
                let parent = PolicyTargetRef::Gateway {
                    gateway_name,
                    gateway_namespace,
                    listener_name: None,
                    port: None,
                };
                assert(parent_gateway(gateway.target()) == Some(parent.target()));
                let target = parent.key();
                self.add_attached_frontend_rules(&target, &mut pol, Ghost(rules));
                proof {
                    lemma_gather_concat(v.policies, own, v.attached(parent.id()), on_frontends());
                }
            },
            _ => {
                assert(parent_gateway(gateway.target()) is None);
            },
        }
        pol
    }

    /// The policies of connections to a listener.
    pub fn listener_frontend_policies(
        &self,
        name: &ListenerName,
        port: Option<u16>,
        service: Option<PolicyTargetRef<'_>>,
    ) -> (r: FrontendPolices)
        requires
            self.wf(),
        ensures
            r@ == FrontendPolicesView::of(
                self@.listener_frontend_rules(
                    name@,
                    port,
                    match service {
                        Some(s) => Some(s.target()),
                        None => None,
                    },
                ),
            ),
    {
        let ghost v = self@;
        let ghost f = on_frontends();
        let ghost service_target = match service {
            Some(s) => Some(s.target()),
            None => None,
        };
        let ghost k1 = v.attached_to_backend(service_target);
        let ghost k2 = v.attached_to_listener(name@);
        let ghost k3 = v.attached_to_listener_set(name@, true);
        let ghost k4 = v.attached_to_listener_set(name@, false);
        let ghost k5 = match port {
            Some(p) => v.attached(crate::types::agent::gateway_id(name@, None, Some(p))),
            None => Seq::empty(),
        };
        let ghost k6 = v.attached_to_gateway(name@);
        let ghost none = Seq::<FrontendPolicy>::empty();
        let mut pol = FrontendPolices::empty();
        match service {
            Some(s) => {
                let target = s.key();
                self.add_attached_frontend_rules(&target, &mut pol, Ghost(none));
            },
            None => {
                assert(none + gather(v.policies, k1, f) =~= none);
            },
        }
        let ghost r1 = none + gather(v.policies, k1, f);
        let target = name.as_listener_target_ref().key();
        self.add_attached_frontend_rules(&target, &mut pol, Ghost(r1));
        let ghost r2 = r1 + gather(v.policies, k2, f);
        match name.as_listenerset_listener_target_ref() {
            Some(t) => {
                let target = t.key();
                self.add_attached_frontend_rules(&target, &mut pol, Ghost(r2));
            },
            None => {
                assert(r2 + gather(v.policies, k3, f) =~= r2);
            },
        }
        let ghost r3 = r2 + gather(v.policies, k3, f);
        match name.as_listenerset_target_ref() {
            Some(t) => {
                let target = t.key();
                self.add_attached_frontend_rules(&target, &mut pol, Ghost(r3));
            },
            None => {
                assert(r3 + gather(v.policies, k4, f) =~= r3);
            },
        }
        let ghost r4 = r3 + gather(v.policies, k4, f);
        match port {
            Some(p) => {
                let target = name.as_gateway_port_target_ref(p).key();
                self.add_attached_frontend_rules(&target, &mut pol, Ghost(r4));
            },
            None => {
                assert(r4 + gather(v.policies, k5, f) =~= r4);
            },
        }
        let ghost r5 = r4 + gather(v.policies, k5, f);
        let target = name.as_gateway_target_ref().key();
        self.add_attached_frontend_rules(&target, &mut pol, Ghost(r5));
        proof {
            lemma_gather_concat(v.policies, k1, k2, f);
            lemma_gather_concat(v.policies, k1 + k2, k3, f);
            lemma_gather_concat(v.policies, k1 + k2 + k3, k4, f);
            lemma_gather_concat(v.policies, k1 + k2 + k3 + k4, k5, f);
            lemma_gather_concat(v.policies, k1 + k2 + k3 + k4 + k5, k6, f);
            assert(r5 + gather(v.policies, k6, f) =~= v.listener_frontend_rules(
                name@,
                port,
                service_target,
            ));
        }
        pol
    }
}

/// Where the access logs of connections to a listener at a port are sent.
pub open spec fn access_log_of(
    v: StoreView,
    name: ListenerNameView,
    port: u16,
) -> Option<Arc<AccessLogPolicy>> {
    FrontendPolicesView::of(v.listener_frontend_rules(name, Some(port), None)).access_log_otlp
}

/// Whether a policy is where the access logs of some listener are sent.
pub open spec fn in_use(v: StoreView, p: Arc<AccessLogPolicy>) -> bool {
    exists|b: Text, l: Text| #[trigger] used_at(v, b, l, p)
}

/// Whether the access logs of a listener of a bind are sent there.
pub open spec fn used_at(
    v: StoreView,
    bind: Text,
    listener: Text,
    p: Arc<AccessLogPolicy>,
) -> bool {
    &&& v.binds.contains_key(bind)
    &&& v.binds[bind].listeners.contains_key(listener)
    &&& access_log_of(
        v,
        v.binds[bind].listeners[listener].name,
        v.binds[bind].address.port_of(),
    ) == Some(p)
}

/// The number of listeners of the binds.
pub open spec fn listener_count(v: StoreView, binds: Seq<Text>) -> nat
    decreases binds.len(),
{
    if binds.len() == 0 {
        0
    } else {
        listener_count(v, binds.drop_last()) + v.binds[binds.last()].listeners.len()
    }
}

/// Whether each policy of a list is in use at a listener of its own, given as its bind and its key.
pub open spec fn at_listeners(
    v: StoreView,
    list: Seq<Arc<AccessLogPolicy>>,
    at: Seq<(Text, Text)>,
) -> bool {
    &&& at.len() == list.len()
    &&& at.no_duplicates()
    &&& forall|i: int| 0 <= i < list.len() ==> #[trigger] used_at(v, at[i].0, at[i].1, list[i])
}

/// Adds a policy unless it is there already, as the very same one.
fn add_once(out: &mut Vec<Arc<AccessLogPolicy>>, p: Arc<AccessLogPolicy>)
    ensures
        final(out)@ == old(out)@ || final(out)@ == old(out)@.push(p),
        final(out)@.contains(p),
{
    let mut i: usize = 0;
    while i < out.len()
        invariant
            i <= out@.len(),
            out@ == old(out)@,
        decreases out@.len() - i,
    {
        if same_allocation(&out[i], &p) {
            assert(out@[i as int] == p);
            return ;
        }
        i = i + 1;
    }
    out.push(p);
    assert(out@[out@.len() - 1] == p);
}

impl Store {
    /// Where the access logs of the listeners are sent. A policy that several listeners share is
    /// listed once. Whether two policies are the very same one is not part of what they hold, so
    /// the contract says which policies are listed, and that each entry has a listener of its own,
    /// so that there are no more entries than listeners.
    pub fn all_access_log_policies(&self) -> (r: Vec<Arc<AccessLogPolicy>>)
        requires
            self.wf(),
        ensures
            forall|i: int| 0 <= i < r@.len() ==> in_use(self@, #[trigger] r@[i]),
            forall|b: Text, l: Text, p: Arc<AccessLogPolicy>| #[trigger]
                used_at(self@, b, l, p) ==> r@.contains(p),
            exists|at: Seq<(Text, Text)>| at_listeners(self@, r@, at),
            r@.len() <= listener_count(self@, self@.bind_order),
    {
        let ghost v = self@;
        let ghost mut at: Seq<(Text, Text)> = Seq::empty();
        proof {
            self.lemma_inv();
        }
        let mut out: Vec<Arc<AccessLogPolicy>> = Vec::new();
        let mut i: usize = 0;
        while i < self.bind_count()
            invariant
                self.wf(),
                v == self@,
                v.inv(),
                i <= v.bind_order.len(),
                at_listeners(v, out@, at),
                forall|n: int| 0 <= n < at.len() ==> v.bind_order.take(i as int).contains(
                    (#[trigger] at[n]).0,
                ),
                out@.len() <= listener_count(v, v.bind_order.take(i as int)),
                forall|n: int| 0 <= n < out@.len() ==> in_use(v, #[trigger] out@[n]),
                forall|n: int, l: Text, p: Arc<AccessLogPolicy>|
                    0 <= n < i && #[trigger] used_at(v, v.bind_order[n], l, p) ==> out@.contains(p),
            decreases v.bind_order.len() - i,
        {
            let bind = self.bind_at(i);
            let ghost key = v.bind_order[i as int];
            let ghost names = bind.listeners.inner.keys();
            let ghost seen = v.bind_order.take(i as int);
            let mut j: usize = 0;
            proof {
                assert(!seen.contains(key)) by {
                    if seen.contains(key) {
                        let n = seen.index_of(key);
                        assert(v.bind_order[n] == v.bind_order[i as int]);
                    }
                }
            }
            while j < bind.listeners.inner.len()
                invariant
                    self.wf(),
                    v == self@,
                    i < v.bind_order.len(),
                    key == v.bind_order[i as int],
                    (**bind).wf(),
                    v.binds.contains_key(key),
                    (**bind)@ == v.binds[key],
                    names == bind.listeners.inner.keys(),
                    j <= names.len(),
                    !seen.contains(key),
                    at_listeners(v, out@, at),
                    forall|n: int|
                        0 <= n < at.len() ==> seen.contains((#[trigger] at[n]).0) || (at[n].0 == key
                            && names.take(j as int).contains(at[n].1)),
                    out@.len() <= listener_count(v, seen) + j,
                    forall|n: int| 0 <= n < out@.len() ==> in_use(v, #[trigger] out@[n]),
                    forall|n: int, l: Text, p: Arc<AccessLogPolicy>|
                        0 <= n < i && #[trigger] used_at(v, v.bind_order[n], l, p)
                            ==> out@.contains(p),
                    forall|n: int, p: Arc<AccessLogPolicy>|
                        0 <= n < j && #[trigger] used_at(v, key, names[n], p) ==> out@.contains(p),
                decreases names.len() - j,
            {
                proof {
                    bind.listeners.inner.lemma_at(j as int);
                }
                let listener = bind.listeners.inner.value_at(j);
                let ghost before = out@;
                assert(v.binds[key].listeners[names[j as int]] == (**listener)@);
                let pol = self.listener_frontend_policies(
                    &listener.name,
                    Some(bind.address.port()),
                    None,
                );
                match pol.access_log_otlp {
                    Some(p) => {
                        assert(used_at(v, key, names[j as int], p));
                        add_once(&mut out, p);
                        proof {
                            lemma_still_there(before, out@, p);
                            let name = names[j as int];
                            assert(!names.take(j as int).contains(name)) by {
                                if names.take(j as int).contains(name) {
                                    let n = names.take(j as int).index_of(name);
                                    assert(names[n] == names[j as int]);
                                }
                            }
                            if out@.len() > before.len() {
                                let earlier = at;
                                at = earlier.push((key, name));
                                assert(at_listeners(v, out@, at)) by {
                                    assert forall|n: int| 0 <= n < out@.len() implies #[trigger] used_at(
                                        v,
                                        at[n].0,
                                        at[n].1,
                                        out@[n],
                                    ) by {
                                        if n < before.len() {
                                            assert(used_at(
                                                v,
                                                earlier[n].0,
                                                earlier[n].1,
                                                before[n],
                                            ));
                                        }
                                    }
                                }
                            }
                        }
                    },
                    None => {},
                }
                proof {
                    lemma_taken(names, j as int);
                }
                j = j + 1;
            }
            proof {
                lemma_taken(v.bind_order, i as int);
                assert(v.bind_order.take(i as int + 1).drop_last() =~= seen);
                assert(v.binds[key].listeners.dom() =~= names.to_set());
                names.unique_seq_to_set();
                assert forall|l: Text, p: Arc<AccessLogPolicy>| #[trigger]
                    used_at(v, key, l, p) implies out@.contains(p) by {
                    let n = bind.listeners.inner.lemma_place(l);
                    assert(names[n] == l);
                    assert(used_at(v, key, names[n], p));
                }
            }
            i = i + 1;
        }
        proof {
            assert(v.bind_order.take(i as int) =~= v.bind_order);
            assert forall|b: Text, l: Text, p: Arc<AccessLogPolicy>| #[trigger]
                used_at(v, b, l, p) implies out@.contains(p) by {
                assert(v.bind_order.contains(b));
                let n = v.bind_order.index_of(b);
                assert(v.bind_order[n] == b);
                assert(used_at(v, v.bind_order[n], l, p));
            }
        }
        out
    }
}

/// The items before a place, and the one at the place, are the items before the next.
proof fn lemma_taken(s: Seq<Text>, i: int)
    requires
        0 <= i < s.len(),
    ensures
        s.take(i + 1).contains(s[i]),
        forall|k: Text| #[trigger] s.take(i).contains(k) ==> s.take(i + 1).contains(k),
{
    assert(s.take(i + 1)[i] == s[i]);
    assert forall|k: Text| #[trigger] s.take(i).contains(k) implies s.take(i + 1).contains(k) by {
        let n = s.take(i).index_of(k);
        assert(s.take(i + 1)[n] == k);
    }
}

/// Items stay in a sequence that grows by at most one.
proof fn lemma_still_there(
    before: Seq<Arc<AccessLogPolicy>>,
    after: Seq<Arc<AccessLogPolicy>>,
    p: Arc<AccessLogPolicy>,
)
    requires
        after == before || after == before.push(p),
    ensures
        forall|x: Arc<AccessLogPolicy>| #[trigger] before.contains(x) ==> after.contains(x),
        forall|i: int| 0 <= i < after.len() ==> before.contains(#[trigger] after[i]) || after[i] == p,
{
    assert forall|x: Arc<AccessLogPolicy>| #[trigger] before.contains(x) implies after.contains(
        x,
    ) by {
        let i = before.index_of(x);
        assert(after[i] == x);
    }
    assert forall|i: int| 0 <= i < after.len() implies before.contains(#[trigger] after[i])
        || after[i] == p by {
        if i < before.len() {
            assert(before[i] == after[i]);
        }
    }
}

/// What an optional backend reference stands for.
pub open spec fn opt_target(t: Option<BackendTargetRef<'_>>) -> Option<PolicyTargetView> {
    match t {
        Some(b) => Some(b.target()),
        None => None,
    }
}

/// What an optional listener name holds.
pub open spec fn opt_listener(name: Option<&ListenerName>) -> Option<ListenerNameView> {
    match name {
        Some(n) => Some((*n)@),
        None => None,
    }
}

} // verus!
