//! The MCP targets that the gateway serves, converted to a bind of their own.

use vstd::prelude::*;

use crate::local::backends::{
    local_name, local_name_of, target_refusals, LocalBackend, LocalMcpBackend,
};
use crate::local::config::GatewayConfig;
use crate::local::error::{first_refusal, ConfigError};
use crate::local::llm::{
    internal_route_name, make_internal_route_name, make_single_bind, single_bind, ConvertedBind,
    ConvertedBindView,
};
use crate::local::routes::{default_matches, route_backend_rules};
use crate::local::split::{no_policies, split_policies, FilterOrPolicy};
use crate::text::{views, Text};
use crate::types::agent::{
    prefix_match, BackendReference, BackendReferenceView, ListenerTarget, ListenerTargetView, Route,
    RouteBackendReference, RouteBackendReferenceView, RouteBackendTarget, RouteBackendTargetView,
    RouteView, TargetedPolicy, TargetedPolicyView,
};
use crate::types::policy::{first_of, PolicyId, PolicyIdView};
use crate::types::traffic::TrafficPolicyView;

verus! {

/// The port on which MCP targets are served where nothing is set.
pub const DEFAULT_MCP_PORT: u16 = 3000;

/// The MCP targets that the gateway serves.
#[derive(Debug)]
pub struct LocalSimpleMcpConfig {
    pub port: Option<u16>,
    pub backend: LocalMcpBackend,
    pub policies: Option<FilterOrPolicy>,
}

impl LocalSimpleMcpConfig {
    /// The port on which the targets are served.
    pub open spec fn served_port(self) -> u16 {
        match self.port {
            Some(p) => p,
            None => DEFAULT_MCP_PORT,
        }
    }

    /// Why the configuration is refused, if it is.
    pub open spec fn refusal(self, config: GatewayConfig) -> Option<Text> {
        first_of(
            match self.policies {
                Some(p) => p.refusal(
                    Some(config.context_of(PolicyIdView::Policy("mcp:default"@))),
                ),
                None => None,
            },
            first_refusal(self.backend.targets@, target_refusals(config.default_backend_tls)),
        )
    }

    /// The policies of requests.
    pub open spec fn rules(self, config: GatewayConfig) -> Seq<TrafficPolicyView> {
        match self.policies {
            Some(p) => p.route_rules(Some(config.context_of(PolicyIdView::Policy("mcp:default"@)))),
            None => Seq::empty(),
        }
    }

    /// The route that takes all requests.
    pub open spec fn route(self, config: GatewayConfig) -> RouteView {
        RouteView {
            key: "mcp:default"@,
            service_key: None,
            name: internal_route_name("default"@),
            hostnames: Seq::empty(),
            matches: seq![prefix_match("/"@)],
            inline_policies: self.rules(config),
            backends: seq![
                RouteBackendReferenceView {
                    weight: 1,
                    target: RouteBackendTargetView::Backend(
                        BackendReferenceView::Backend("/mcp"@),
                    ),
                    inline_policies: views(route_backend_rules(self.policies)),
                },
            ],
        }
    }

    /// The bind of the targets, with one route to all of them.
    pub open spec fn converted(
        self,
        config: GatewayConfig,
        gateway: ListenerTargetView,
    ) -> ConvertedBindView {
        ConvertedBindView {
            bind: single_bind(config, self.served_port(), "mcp"@, gateway),
            routes: seq![self.route(config)],
            policies: Seq::empty(),
            backends: self.backend.backends(
                local_name_of("mcp"@),
                config.default_backend_tls,
                config.mcp_session_ttl,
            ),
        }
    }
}

/// The route to the targets refers to the backend of the targets.
pub proof fn mcp_route_finds_its_backend()
    ensures
        local_name_of("mcp"@).full() == "/mcp"@,
{
    reveal_strlit("mcp");
    reveal_strlit("/");
    reveal_strlit("/mcp");
    assert(local_name_of("mcp"@).full() =~= "/mcp"@);
}

/// The bind of the MCP targets that the gateway serves, with one route to all of them.
pub fn convert_mcp_config(
    config: &GatewayConfig,
    gateway: &ListenerTarget,
    mcp_config: LocalSimpleMcpConfig,
) -> (r: Result<ConvertedBind, ConfigError>)
    ensures
        match r {
            Ok(c) => {
                &&& mcp_config.refusal(*config) is None
                &&& c.bind.wf()
                &&& c@ == mcp_config.converted(*config, gateway@)
            },
            Err(e) => mcp_config.refusal(*config) == Some(e@),
        },
{
    let ghost given = mcp_config;
    let port: u16 = match mcp_config.port {
        Some(p) => p,
        None => DEFAULT_MCP_PORT,
    };
    let resolved = match mcp_config.policies {
        Some(pol) => split_policies(
            pol,
            Some(config.policy_context(PolicyId::Policy("mcp:default".to_owned()))),
        )?,
        None => no_policies(),
    };
    assert(views(resolved.route_policies@) =~= given.rules(*config));
    assert(resolved.backend_policies@ =~= route_backend_rules(given.policies));
    let backends = vec![
        RouteBackendReference {
            weight: 1,
            target: RouteBackendTarget::Backend(BackendReference::Backend("/mcp".to_owned())),
            inline_policies: resolved.backend_policies,
        },
    ];
    assert(views(backends@) =~= given.route(*config).backends);
    let route = Route {
        key: "mcp:default".to_owned(),
        service_key: None,
        name: make_internal_route_name("default".to_owned()),
        hostnames: Vec::new(),
        matches: default_matches(),
        inline_policies: resolved.route_policies,
        backends,
    };
    assert(route@ =~= given.route(*config));
    let routes = vec![route];
    assert(views(routes@) =~= seq![given.route(*config)]);
    let (bind, _) = make_single_bind(config, port, "mcp", gateway);
    let backends = LocalBackend::MCP(mcp_config.backend).as_backends(
        local_name("mcp".to_owned()),
        &config.default_backend_tls,
        config.mcp_session_ttl,
    )?;
    let policies: Vec<TargetedPolicy> = Vec::new();
    assert(views(policies@) =~= Seq::<TargetedPolicyView>::empty());
    Ok(ConvertedBind { bind, routes, policies, backends })
}

} // verus!
