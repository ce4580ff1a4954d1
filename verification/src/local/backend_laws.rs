//! Laws of the backends that a configuration writes.

use vstd::prelude::*;

use crate::local::backends::{
    full_policies, host_backend, host_reference, host_refusal, mcp_backend_policies,
    mcp_backend_refusal, named_provider, path_refusal, provider_refusal, served_target,
    target_backend, target_refusal, FullLocalBackendSpec, LocalAIBackend, LocalAIProviders,
    LocalAwsService, LocalBackend, LocalMcpBackend, LocalMcpTarget, LocalMcpTargetSpec,
    LocalNamedAIProvider, McpPrefixMode, McpStatefulMode, SimpleLocalBackend,
};
use crate::local::config::GatewayConfig;
use crate::local::error::{first_refusal, Loaded};
use crate::local::hosts::{
    parsed_uri, uri_target, McpBackendHost, ProcessedMcpBackendHost, ProcessedView, UriParts,
    UriPartsView,
};
use crate::local::llm::single_bind;
use crate::local::mcp::LocalSimpleMcpConfig;
use crate::local::policies::{
    backend_policies, backend_refusal, inference_refusal, InferenceRoutingScope,
    MCPLocalBackendPolicies,
};
use crate::mcp::FailureMode;
use crate::text::{decimal, opt_text, opt_view, views, Text};
use crate::types::agent::{
    BackendReferenceView, BackendView, BackendWithPoliciesView, ListenerTargetView,
    McpTargetSpecView, PathMatchView, ResourceNameView, RouteBackendTargetView,
    SimpleBackendReferenceView, TargetView,
};
use crate::types::policy::{Nanos, PolicyBody, PolicyIdView};

verus! {

// ---------------------------------------------------------------------------------------------
// Backends
// ---------------------------------------------------------------------------------------------

/// What is made of a written backend: a host, a dynamic backend, providers of models and an agent
/// are each one backend under the given name, without policies. What only refers to something makes
/// nothing; an invalid one makes an invalid backend.
pub proof fn backends_are_made_under_their_name(
    b: LocalBackend,
    name: ResourceNameView,
    default_tls: Loaded<PolicyBody>,
    ttl: Nanos,
)
    ensures
        ({
            let made = b.backends(name, default_tls, ttl);
            match b {
                LocalBackend::Service { .. } => made.len() == 0,
                LocalBackend::Backend(_) => made.len() == 0,
                LocalBackend::RouteGroup(_) => made.len() == 0,
                LocalBackend::Opaque(t) => made.len() == 1 && made[0].backend
                    == BackendView::Opaque(name, t@) && made[0].inline_policies.len() == 0,
                LocalBackend::Dynamic => made.len() == 1 && made[0].backend
                    == BackendView::Dynamic(name) && made[0].inline_policies.len() == 0,
                LocalBackend::AI(a) => made.len() == 1 && made[0].backend == BackendView::AI(
                    name,
                    a.providers(),
                ) && made[0].inline_policies.len() == 0,
                LocalBackend::Aws(aws) => aws.service matches LocalAwsService::AgentCore(ac) && (
                ac.config is Ok ==> made.len() == 1 && made[0].backend == BackendView::Aws(
                    name,
                    ac.config->Ok_0,
                ) && made[0].inline_policies.len() == 0),
                LocalBackend::Invalid => made.len() == 1 && made[0].backend is Invalid
                    && made[0].inline_policies.len() == 0,
                LocalBackend::MCP(m) => made.len() > 0 && made.last().backend == BackendView::MCP(
                    name,
                    m.served(name, ttl),
                ) && made.last().inline_policies.len() == 0,
            }
        }),
{
}

/// A written backend is refused for the first MCP target that is refused, for a provider of models
/// that is, or for an agent whose settings could not be loaded, and for nothing else.
pub proof fn backends_are_refused_for_their_parts(b: LocalBackend, default_tls: Loaded<PolicyBody>)
    ensures
        match b {
            LocalBackend::MCP(m) => b.refusal(default_tls) == first_refusal(
                m.targets@,
                |i: int, t: LocalMcpTarget| target_refusal(t, default_tls),
            ),
            LocalBackend::AI(a) => b.refusal(default_tls) == a.refusal(),
            LocalBackend::Aws(aws) => aws.service matches LocalAwsService::AgentCore(ac)
                && b.refusal(default_tls) == (match ac.config {
                Err(e) => Some(e@),
                Ok(_) => None,
            }),
            _ => b.refusal(default_tls) is None,
        },
{
    assert(crate::local::backends::target_refusals(default_tls) =~= |i: int, t: LocalMcpTarget|
        target_refusal(t, default_tls));
}

/// A simple backend that is written in place is made under the given name; one that refers to
/// something makes nothing, an invalid one makes an invalid backend.
pub proof fn simple_backends_are_made_under_their_name(b: SimpleLocalBackend, name: ResourceNameView)
    ensures
        match b {
            SimpleLocalBackend::Service { .. } => b.made(name) is None,
            SimpleLocalBackend::Backend(_) => b.made(name) is None,
            SimpleLocalBackend::Opaque(t) => b.made(name) == Some(BackendView::Opaque(name, t@)),
            SimpleLocalBackend::Invalid => b.made(name) == Some(BackendView::Invalid),
        },
{
}

/// A named backend is a written backend of the same sort.
pub proof fn named_backends_are_backends(spec: FullLocalBackendSpec)
    ensures
        match spec {
            FullLocalBackendSpec::Opaque(t) => spec.among_all() == LocalBackend::Opaque(t),
            FullLocalBackendSpec::MCP(m) => spec.among_all() == LocalBackend::MCP(m),
            FullLocalBackendSpec::AI(a) => spec.among_all() == LocalBackend::AI(a),
            FullLocalBackendSpec::Aws(a) => spec.among_all() == LocalBackend::Aws(a),
        },
{
}

// ---------------------------------------------------------------------------------------------
// Providers of models
// ---------------------------------------------------------------------------------------------

/// A provider is served under its name with everything that is written of it: its settings, the
/// host, path and prefix that it is reached at, whether it counts tokens, and its policies.
pub proof fn provider_has_what_is_written(p: LocalNamedAIProvider)
    ensures
        ({
            let (name, made) = named_provider(p);
            &&& name == p.name@
            &&& made.name == p.name@
            &&& made.provider == p.provider
            &&& made.host_override == opt_view(p.host_override)
            &&& made.path_override == opt_text(p.path_override)
            &&& made.path_prefix == opt_text(p.path_prefix)
            &&& made.tokenize == p.tokenize
            &&& made.inline_policies == views(backend_policies(p.policies))
        }),
{
}

/// Providers keep their groups and their order; one provider alone is a group of its own. They are
/// refused for the first that is refused: because inference routing is set, or for its policies.
pub proof fn providers_keep_their_groups(a: LocalAIBackend, i: int, j: int)
    ensures
        ({
            let refused = |n: int, p: LocalNamedAIProvider|
                if inference_refusal(p.policies, InferenceRoutingScope::AIProviderPolicies)
                    is Some {
                    inference_refusal(p.policies, InferenceRoutingScope::AIProviderPolicies)
                } else {
                    backend_refusal(p.policies)
                };
            match a {
                LocalAIBackend::Provider(p) => {
                    &&& a.providers().len() == 1
                    &&& a.providers()[0].len() == 1
                    &&& a.providers()[0][0] == named_provider(p)
                    &&& a.refusal() == refused(0, p)
                },
                LocalAIBackend::Groups { groups } => {
                    &&& a.providers().len() == groups@.len()
                    &&& 0 <= i < groups@.len() ==> a.providers()[i].len()
                        == groups@[i].providers@.len()
                    &&& 0 <= i < groups@.len() && 0 <= j < groups@[i].providers@.len()
                        ==> a.providers()[i][j] == named_provider(groups@[i].providers@[j])
                    &&& a.refusal() == first_refusal(
                        groups@,
                        |n: int, g: LocalAIProviders| first_refusal(g.providers@, refused),
                    )
                },
            }
        }),
{
    let refused = |n: int, p: LocalNamedAIProvider|
        if inference_refusal(p.policies, InferenceRoutingScope::AIProviderPolicies) is Some {
            inference_refusal(p.policies, InferenceRoutingScope::AIProviderPolicies)
        } else {
            backend_refusal(p.policies)
        };
    assert(provider_refusal() =~= refused);
    assert(crate::local::backends::group_refusal() =~= |n: int, g: LocalAIProviders|
        first_refusal(g.providers@, refused));
}

// ---------------------------------------------------------------------------------------------
// MCP
// ---------------------------------------------------------------------------------------------

/// An MCP backend serves its targets in order. It keeps state exactly if that is asked for,
/// prefixes names exactly if that is to be done always, fails closed unless something else is set,
/// and has the time limit of sessions that it is given.
pub proof fn mcp_backend_has_what_is_written(
    m: LocalMcpBackend,
    name: ResourceNameView,
    ttl: Nanos,
    i: int,
)
    ensures
        ({
            let s = m.served(name, ttl);
            &&& s.targets.len() == m.targets@.len()
            &&& 0 <= i < m.targets@.len() ==> s.targets[i] == served_target(name, i, m.targets@[i])
            &&& s.stateful <==> m.stateful_mode == McpStatefulMode::Stateful
            &&& s.always_use_prefix <==> m.prefix_mode == Some(McpPrefixMode::Always)
            &&& m.failure_mode is None ==> s.failure_mode == FailureMode::FailClosed
            &&& m.failure_mode matches Some(f) ==> s.failure_mode == f
            &&& s.session_idle_ttl == ttl
        }),
{
}

/// A target is served under its name. One that is reached over the network is served at the backend
/// and path that its host comes to, a command as it is written, and an API by the schema that was
/// loaded.
pub proof fn target_has_what_is_written(
    name: ResourceNameView,
    idx: int,
    t: LocalMcpTarget,
    default_tls: Loaded<PolicyBody>,
    i: int,
)
    requires
        target_refusal(t, default_tls) is None,
    ensures
        ({
            let made = served_target(name, idx, t);
            &&& made.name == t.name@
            &&& match t.spec {
                LocalMcpTargetSpec::Sse { backend } => made.spec
                    matches McpTargetSpecView::Sse { backend: b, path } && b == host_reference(
                    name,
                    idx,
                    backend,
                ).0 && Some(path) == host_reference(name, idx, backend).1,
                LocalMcpTargetSpec::Mcp { backend } => made.spec
                    matches McpTargetSpecView::Mcp { backend: b, path } && b == host_reference(
                    name,
                    idx,
                    backend,
                ).0 && Some(path) == host_reference(name, idx, backend).1,
                LocalMcpTargetSpec::Stdio { cmd, args, env, clear_env } => made.spec
                    matches McpTargetSpecView::Stdio { cmd: c, args: a, env: e, clear_env: ce } && {
                    &&& c == cmd@
                    &&& a.len() == args@.len()
                    &&& 0 <= i < args@.len() ==> a[i] == args@[i]@
                    &&& e.len() == env@.len()
                    &&& 0 <= i < env@.len() ==> e[i] == (env@[i].0@, env@[i].1@)
                    &&& ce == clear_env
                },
                LocalMcpTargetSpec::OpenAPI { backend, schema } => made.spec
                    matches McpTargetSpecView::OpenAPI { backend: b, schema: s } && b
                    == host_reference(name, idx, backend).0 && schema == Ok::<
                    std::sync::Arc<PolicyBody>,
                    String,
                >(s),
            }
        }),
{
}

/// A host that is written in place is served under a name made of the name of the MCP backend and
/// the place of the target, with the policies of the target; a backend that is referred to is used
/// as it is, and nothing is made for it.
pub proof fn target_hosts_are_made_or_referred_to(
    name: ResourceNameView,
    idx: int,
    host: McpBackendHost,
    t: LocalMcpTarget,
    default_tls: Loaded<PolicyBody>,
)
    ensures
        ({
            let key = "mcp/"@ + (name.namespace + "/"@ + name.name) + "/"@ + decimal(idx as nat);
            let own = ResourceNameView { name: key, namespace: Seq::empty() };
            match host.processed() {
                Ok(ProcessedView::Inline { backend, path, tls }) => {
                    &&& host_reference(name, idx, host) == (
                        SimpleBackendReferenceView::Backend("/"@ + key),
                        Some(path),
                    )
                    &&& host_backend(name, idx, host, t.policies, default_tls) == Some(
                        BackendWithPoliciesView {
                            backend: BackendView::Opaque(own, backend),
                            inline_policies: views(
                                mcp_backend_policies(t.policies, tls, default_tls),
                            ),
                        },
                    )
                    &&& host_refusal(host, t.policies, default_tls) == mcp_backend_refusal(
                        t.policies,
                        tls,
                        default_tls,
                    )
                    &&& path_refusal(host) is None
                },
                Ok(ProcessedView::Reference { backend, path }) => {
                    &&& host_reference(name, idx, host) == (backend, path)
                    &&& host_backend(name, idx, host, t.policies, default_tls) is None
                    &&& host_refusal(host, t.policies, default_tls) == (if t.policies is Some {
                        Some(
                            "cannot use backend reference when policies are defined for an MCP target"@,
                        )
                    } else {
                        None
                    })
                    &&& path_refusal(host) == (if path is None {
                        Some("path is required when backend is set"@)
                    } else {
                        None
                    })
                },
                Err(e) => host_refusal(host, t.policies, default_tls) == Some(e),
            }
        }),
{
    let key = "mcp/"@ + (name.namespace + "/"@ + name.name) + "/"@ + decimal(idx as nat);
    assert(Seq::<char>::empty() + "/"@ + key =~= "/"@ + key);
}

/// A target is refused for its name, else for its host, else for a missing path or for a schema
/// that could not be loaded. A command needs neither.
pub proof fn targets_are_refused_for_the_first_reason(
    t: LocalMcpTarget,
    default_tls: Loaded<PolicyBody>,
)
    ensures
        t.name_check is Err ==> target_refusal(t, default_tls) == Some(t.name_check->Err_0@),
        t.name_check is Ok ==> match t.spec {
            LocalMcpTargetSpec::Sse { backend } => target_refusal(t, default_tls) == (
            if host_refusal(backend, t.policies, default_tls) is Some {
                host_refusal(backend, t.policies, default_tls)
            } else {
                path_refusal(backend)
            }),
            LocalMcpTargetSpec::Mcp { backend } => target_refusal(t, default_tls) == (
            if host_refusal(backend, t.policies, default_tls) is Some {
                host_refusal(backend, t.policies, default_tls)
            } else {
                path_refusal(backend)
            }),
            LocalMcpTargetSpec::Stdio { .. } => target_refusal(t, default_tls) is None,
            LocalMcpTargetSpec::OpenAPI { backend, schema } => target_refusal(t, default_tls) == (
            if host_refusal(backend, t.policies, default_tls) is Some {
                host_refusal(backend, t.policies, default_tls)
            } else if schema is Err {
                Some(schema->Err_0@)
            } else {
                None
            }),
        },
{
}

/// A further target of an MCP backend adds the backend that is made for its host, if one is, behind
/// those of the other targets; the MCP backend itself comes last.
pub proof fn further_target_adds_its_backend(
    m: LocalMcpBackend,
    longer: LocalMcpBackend,
    t: LocalMcpTarget,
    name: ResourceNameView,
    default_tls: Loaded<PolicyBody>,
    ttl: Nanos,
)
    requires
        longer.targets@ == m.targets@.push(t),
    ensures
        ({
            let before = m.backends(name, default_tls, ttl);
            let after = longer.backends(name, default_tls, ttl);
            let host = match t.spec {
                LocalMcpTargetSpec::Sse { backend } => Some(backend),
                LocalMcpTargetSpec::Mcp { backend } => Some(backend),
                LocalMcpTargetSpec::Stdio { .. } => None,
                LocalMcpTargetSpec::OpenAPI { backend, .. } => Some(backend),
            };
            let made = match host {
                Some(h) => host_backend(
                    name,
                    m.targets@.len() as int,
                    h,
                    t.policies,
                    default_tls,
                ),
                None => None,
            };
            &&& made is None ==> after.drop_last() == before.drop_last()
            &&& made matches Some(b) ==> after.drop_last() == before.drop_last().push(b)
            &&& after.last().backend == BackendView::MCP(name, longer.served(name, ttl))
            &&& m.targets@.len() == 0 ==> before.len() == 1
        }),
{
    assert(longer.targets@.drop_last() =~= m.targets@);
    let before = m.backends(name, default_tls, ttl);
    let after = longer.backends(name, default_tls, ttl);
    let added = target_backend(name, m.targets@.len() as int, t, default_tls);
    assert(after.drop_last() =~= before.drop_last() + added);
    if added.len() == 0 {
        assert(after.drop_last() =~= before.drop_last());
    } else {
        assert(after.drop_last() =~= before.drop_last().push(added[0]));
    }
}

/// MCP is served at the port that is set, 3000 if none is. One route takes all requests and sends
/// them to the MCP backend, with the policies of requests on the route and those of backends on its
/// reference.
pub proof fn mcp_is_served_at_its_port(
    c: LocalSimpleMcpConfig,
    config: GatewayConfig,
    gateway: ListenerTargetView,
)
    ensures
        ({
            let made = c.converted(config, gateway);
            let r = made.routes[0];
            let name = ResourceNameView { name: "mcp"@, namespace: Seq::empty() };
            &&& made.bind == single_bind(
                config,
                match c.port {
                    Some(p) => p,
                    None => 3000u16,
                },
                "mcp"@,
                gateway,
            )
            &&& made.policies.len() == 0
            &&& made.backends == c.backend.backends(
                name,
                config.default_backend_tls,
                config.mcp_session_ttl,
            )
            &&& made.routes.len() == 1
            &&& r.key == "mcp:default"@
            &&& r.service_key is None
            &&& r.name.name == "default"@
            &&& r.name.namespace == "internal"@
            &&& r.hostnames.len() == 0
            &&& r.matches.len() == 1
            &&& r.matches[0].path == PathMatchView::PathPrefix("/"@)
            &&& r.matches[0].headers.len() == 0
            &&& r.backends.len() == 1
            &&& r.backends[0].weight == 1
            &&& r.backends[0].target == RouteBackendTargetView::Backend(
                BackendReferenceView::Backend("/mcp"@),
            )
            &&& c.policies is None ==> r.inline_policies.len() == 0
                && r.backends[0].inline_policies.len() == 0
            &&& c.policies matches Some(p) ==> r.inline_policies == p.route_rules(
                Some(config.context_of(PolicyIdView::Policy("mcp:default"@))),
            ) && r.backends[0].inline_policies == views(p.backend_rules())
            &&& c.refusal(config) == (if c.policies is Some && c.policies->0.refusal(
                Some(config.context_of(PolicyIdView::Policy("mcp:default"@))),
            ) is Some {
                c.policies->0.refusal(
                    Some(config.context_of(PolicyIdView::Policy("mcp:default"@))),
                )
            } else {
                LocalBackend::MCP(c.backend).refusal(config.default_backend_tls)
            })
        }),
{
}

/// A host is read by what is written of it: a backend is referred to; a host with a port and a path
/// is used as it is, without TLS; a host alone is read as a URL. A port or a path alone is refused.
pub proof fn hosts_are_read_as_written(host: McpBackendHost)
    ensures
        match host {
            McpBackendHost::Backend { backend, path } => host.processed() == Ok::<
                ProcessedView,
                Text,
            >(
                ProcessedView::Reference {
                    backend: SimpleBackendReferenceView::Backend(backend@),
                    path: opt_text(path),
                },
            ),
            McpBackendHost::Host { host: h, port, path } => if port is Some && path is Some {
                host.processed() == Ok::<ProcessedView, Text>(
                    ProcessedView::Inline {
                        backend: TargetView { host: h@, port: port->0 },
                        path: path->0@,
                        tls: false,
                    },
                )
            } else if port is None && path is None {
                match parsed_uri(h@) {
                    Ok(uri) => host.processed() == uri_target(uri),
                    Err(e) => host.processed() == Err::<ProcessedView, Text>(e),
                }
            } else {
                host.processed() == Err::<ProcessedView, Text>(
                    "if port or path is set, both must be set; otherwise, use only host"@,
                )
            },
        },
{
}

/// A URL names a host, is reached over TLS exactly if its scheme is https, and at the port that it
/// names or that its scheme has. Without a scheme it is http; another scheme is refused.
pub proof fn urls_are_reached_by_their_scheme(uri: UriPartsView)
    ensures
        uri.host is None ==> uri_target(uri) == Err::<ProcessedView, Text>("no host"@),
        uri.host is Some && (uri.scheme is None || uri.scheme->0 == "http"@) ==> uri_target(uri)
            == Ok::<ProcessedView, Text>(
            ProcessedView::Inline {
                backend: TargetView {
                    host: uri.host->0,
                    port: match uri.port {
                        Some(p) => p,
                        None => 80u16,
                    },
                },
                path: uri.path,
                tls: false,
            },
        ),
        uri.host is Some && uri.scheme == Some("https"@) ==> uri_target(uri) == Ok::<
            ProcessedView,
            Text,
        >(
            ProcessedView::Inline {
                backend: TargetView {
                    host: uri.host->0,
                    port: match uri.port {
                        Some(p) => p,
                        None => 443u16,
                    },
                },
                path: uri.path,
                tls: true,
            },
        ),
        uri.host is Some && (uri.scheme matches Some(s) && s != "http"@ && s != "https"@)
            ==> uri_target(uri) == Err::<ProcessedView, Text>(
            "invalid scheme: \""@ + uri.scheme->0 + "\""@,
        ),
{
    reveal_strlit("http");
    reveal_strlit("https");
    assert("http"@.len() != "https"@.len());
}

/// A target at an address is refused if its address cannot be read, else for its policies, else if
/// its address asks for TLS of which the default settings could not be loaded.
pub proof fn addresses_with_tls_need_its_settings(
    host: McpBackendHost,
    policies: Option<MCPLocalBackendPolicies>,
    default_tls: Loaded<PolicyBody>,
)
    ensures
        host.processed() is Err ==> host_refusal(host, policies, default_tls) == Some(
            host.processed()->Err_0,
        ),
        host.processed() matches Ok(ProcessedView::Inline { backend: _, path: _, tls }) ==> {
            let own = backend_refusal(full_policies(policies));
            &&& own is Some ==> host_refusal(host, policies, default_tls) == own
            &&& own is None && tls && default_tls is Err ==> host_refusal(
                host,
                policies,
                default_tls,
            ) == Some(default_tls->Err_0@)
            &&& own is None && (!tls || default_tls is Ok) ==> host_refusal(
                host,
                policies,
                default_tls,
            ) is None
        },
{
}

/// What is seen of the parts of an address and of what it comes to is what they hold.
pub proof fn addresses_are_seen_as_they_are(u: UriParts, p: ProcessedMcpBackendHost)
    ensures
        u@.host == (match u.host {
            Some(h) => Some(h@),
            None => None,
        }),
        u@.scheme == (match u.scheme {
            Some(s) => Some(s@),
            None => None,
        }),
        u@.port == u.port,
        u@.path == u.path@,
        match p {
            ProcessedMcpBackendHost::Inline { backend, path, tls } => p@ == (
            ProcessedView::Inline { backend: backend@, path: path@, tls }),
            ProcessedMcpBackendHost::Reference { backend, path } => p@ == (
            ProcessedView::Reference {
                backend: backend@,
                path: match path {
                    Some(t) => Some(t@),
                    None => None,
                },
            }),
        },
{
}

} // verus!
