//! Backends, as a configuration writes them.

use std::sync::Arc;

use vstd::prelude::*;

use crate::local::error::{
    first_refusal, gathered, lemma_first_refusal, lemma_gathered, one, ConfigError, Loaded,
};
use crate::local::hosts::{McpBackendHost, ProcessedMcpBackendHost, ProcessedView};
use crate::local::policies::{
    backend_policies, backend_refusal, inference_refusal, translate_backend_policies,
    validate_inference_routing_scope, InferenceRoutingScope, LocalBackendPolicies,
    MCPLocalBackendPolicies,
};
use crate::mcp::FailureMode;
use crate::text::{decimal, join4, lemma_views, opt_text, opt_view, texts, to_decimal, views, Text};
use crate::types::agent::{
    mcp_target_views, plain_backend, Backend, BackendKey, BackendView, BackendWithPolicies,
    BackendWithPoliciesView, McpBackend, McpBackendView, McpTarget, McpTargetSpec,
    McpTargetSpecView, McpTargetView, NamespacedHostname, ResourceName, ResourceNameView,
    RouteGroupKey, SimpleBackend, SimpleBackendReference, SimpleBackendReferenceView,
    SimpleBackendWithPolicies, Target,
};
use crate::types::llm::{group_view, AIBackend, AIProvider, NamedAIProvider, NamedAIProviderView};
use crate::types::policy::{first_of, pair_texts, Nanos, PolicyBody};
use crate::types::traffic::BackendTrafficPolicy;

verus! {

// ---------------------------------------------------------------------------------------------
// Names
// ---------------------------------------------------------------------------------------------

/// The name of a backend that a configuration writes: it is in no namespace.
pub open spec fn local_name_of(name: Text) -> ResourceNameView {
    ResourceNameView { name, namespace: Seq::empty() }
}

/// The name of a backend that a configuration writes: it is in no namespace.
pub fn local_name(name: String) -> (r: ResourceName)
    ensures
        r@ == local_name_of(name@),
{
    let r = ResourceName::new(name, String::new());
    assert(r.namespace@ =~= Seq::<char>::empty());
    r
}

/// The key under which a backend of that name is referred to.
pub open spec fn local_key(name: Text) -> Text {
    "/"@ + name
}

/// A reference to a backend by its key finds the backend: the key is the backend's name in full.
pub proof fn local_keys_name_local_backends(name: Text)
    ensures
        local_name_of(name).full() == local_key(name),
{
    assert(local_name_of(name).full() =~= local_key(name));
}

// ---------------------------------------------------------------------------------------------
// Simple backends
// ---------------------------------------------------------------------------------------------

/// A backend that needs no more than a connection.
#[derive(Debug)]
pub enum SimpleLocalBackend {
    /// A service. It must be defined in the list of services.
    Service { name: NamespacedHostname, port: u16 },
    /// A hostname or an address.
    Opaque(Target),
    /// A backend. It must be defined in the list of backends.
    Backend(BackendKey),
    Invalid,
}

impl SimpleLocalBackend {
    /// The backend that is made; none if it stays a reference.
    pub open spec fn made(self, name: ResourceNameView) -> Option<BackendView> {
        match self {
            SimpleLocalBackend::Service { .. } => None,
            SimpleLocalBackend::Backend(_) => None,
            SimpleLocalBackend::Opaque(t) => Some(BackendView::Opaque(name, t@)),
            SimpleLocalBackend::Invalid => Some(BackendView::Invalid),
        }
    }

    /// The backend that is made, with the policies; none if it stays a reference. One that is
    /// invalid has no policies.
    pub fn as_backends(
        &self,
        name: ResourceName,
        policies: Vec<BackendTrafficPolicy>,
    ) -> (r: Option<SimpleBackendWithPolicies>)
        ensures
            match self.made(name@) {
                None => r is None,
                Some(b) => r is Some && r->0@ == (BackendWithPoliciesView {
                    backend: b,
                    inline_policies: if *self is Invalid {
                        Seq::empty()
                    } else {
                        views(policies@)
                    },
                }),
            },
    {
        match self {
            SimpleLocalBackend::Service { .. } => None,
            SimpleLocalBackend::Opaque(t) => Some(
                SimpleBackendWithPolicies {
                    backend: SimpleBackend::Opaque(name, t.copy()),
                    inline_policies: policies,
                },
            ),
            SimpleLocalBackend::Backend(_) => None,
            SimpleLocalBackend::Invalid => {
                let r = SimpleBackendWithPolicies {
                    backend: SimpleBackend::Invalid,
                    inline_policies: Vec::new(),
                };
                assert(r@ =~= plain_backend(BackendView::Invalid));
                Some(r)
            },
        }
    }

    /// The backend that is made; none if it stays a reference.
    pub fn as_backend(&self, name: ResourceName) -> (r: Option<Backend>)
        ensures
            opt_view(r) == self.made(name@),
    {
        match self {
            SimpleLocalBackend::Service { .. } => None,
            SimpleLocalBackend::Backend(_) => None,
            SimpleLocalBackend::Opaque(t) => Some(Backend::Opaque(name, t.copy())),
            SimpleLocalBackend::Invalid => Some(Backend::Invalid),
        }
    }
}

// ---------------------------------------------------------------------------------------------
// Model providers
// ---------------------------------------------------------------------------------------------

/// A provider of models with its name.
#[derive(Debug)]
pub struct LocalNamedAIProvider {
    pub name: String,
    pub provider: AIProvider,
    /// Override the upstream host for this provider.
    pub host_override: Option<Target>,
    /// Override the upstream path for this provider.
    pub path_override: Option<String>,
    /// Override the default base path prefix for this provider.
    pub path_prefix: Option<String>,
    /// Whether to tokenize on the request flow.
    pub tokenize: bool,
    pub policies: Option<LocalBackendPolicies>,
}

/// Providers that requests are spread over.
#[derive(Debug)]
pub struct LocalAIProviders {
    pub providers: Vec<LocalNamedAIProvider>,
}

/// Providers of models: one, or groups in order of preference.
#[derive(Debug)]
pub enum LocalAIBackend {
    Provider(LocalNamedAIProvider),
    Groups { groups: Vec<LocalAIProviders> },
}

/// Why a provider is refused, if it is.
pub open spec fn provider_refusal() -> spec_fn(int, LocalNamedAIProvider) -> Option<Text> {
    |i: int, p: LocalNamedAIProvider|
        first_of(
            inference_refusal(p.policies, InferenceRoutingScope::AIProviderPolicies),
            backend_refusal(p.policies),
        )
}

/// Why a group of providers is refused, if it is.
pub open spec fn group_refusal() -> spec_fn(int, LocalAIProviders) -> Option<Text> {
    |i: int, g: LocalAIProviders| first_refusal(g.providers@, provider_refusal())
}

/// A provider under its name.
pub open spec fn named_provider(p: LocalNamedAIProvider) -> (Text, NamedAIProviderView) {
    (
        p.name@,
        NamedAIProviderView {
            name: p.name@,
            provider: p.provider,
            host_override: opt_view(p.host_override),
            path_override: opt_text(p.path_override),
            path_prefix: opt_text(p.path_prefix),
            tokenize: p.tokenize,
            inline_policies: views(backend_policies(p.policies)),
        },
    )
}

/// Providers under their names.
pub open spec fn named_providers(g: Seq<LocalNamedAIProvider>) -> Seq<
    (Text, NamedAIProviderView),
> {
    g.map_values(|p: LocalNamedAIProvider| named_provider(p))
}

fn translate_group(providers: Vec<LocalNamedAIProvider>) -> (r: Result<
    Vec<(String, NamedAIProvider)>,
    ConfigError,
>)
    ensures
        match r {
            Ok(g) => first_refusal(providers@, provider_refusal()) is None && group_view(g@)
                == named_providers(providers@),
            Err(e) => first_refusal(providers@, provider_refusal()) == Some(e@),
        },
{
    let ghost all = providers@;
    let mut group: Vec<(String, NamedAIProvider)> = Vec::new();
    assert(group_view(group@) =~= named_providers(all.take(0)));
    for p in it: providers.into_iter()
        invariant
            it.seq() == all,
            first_refusal(all.take(it.index() as int), provider_refusal()) is None,
            group_view(group@) == named_providers(all.take(it.index() as int)),
    {
        let ghost n = it.index() as int;
        let ghost held = group@;
        let ghost given = p;
        proof {
            lemma_first_refusal(all, provider_refusal(), n);
        }
        validate_inference_routing_scope(&p.policies, InferenceRoutingScope::AIProviderPolicies)?;
        let inline_policies = translate_backend_policies(p.policies)?;
        group.push(
            (
                p.name.clone(),
                NamedAIProvider {
                    name: p.name,
                    provider: p.provider,
                    host_override: p.host_override,
                    path_override: p.path_override,
                    path_prefix: p.path_prefix,
                    tokenize: p.tokenize,
                    inline_policies,
                },
            ),
        );
        proof {
            let made = named_provider(given);
            assert(group_view(group@) =~= group_view(held).push(made));
            assert(named_providers(all.take(n + 1)) =~= named_providers(all.take(n)).push(made));
        }
    }
    assert(all.take(all.len() as int) =~= all);
    Ok(group)
}

impl LocalAIBackend {
    /// Why the providers are refused, if they are.
    pub open spec fn refusal(self) -> Option<Text> {
        match self {
            LocalAIBackend::Provider(p) => provider_refusal()(0, p),
            LocalAIBackend::Groups { groups } => first_refusal(groups@, group_refusal()),
        }
    }

    /// The groups of providers under their names.
    pub open spec fn providers(self) -> Seq<Seq<(Text, NamedAIProviderView)>> {
        match self {
            LocalAIBackend::Provider(p) => seq![seq![named_provider(p)]],
            LocalAIBackend::Groups { groups } => groups@.map_values(
                |g: LocalAIProviders| named_providers(g.providers@),
            ),
        }
    }

    /// The providers with the policies that they come to. Refuses routing by an endpoint picker.
    pub fn translate(self) -> (r: Result<AIBackend, ConfigError>)
        ensures
            match r {
                Ok(b) => self.refusal() is None && b@ == self.providers(),
                Err(e) => self.refusal() == Some(e@),
            },
    {
        let groups = match self {
            LocalAIBackend::Provider(p) => {
                let ghost given = p;
                let providers = vec![p];
                assert(providers@ =~= seq![given]);
                proof {
                    assert(providers@.drop_last() =~= Seq::<LocalNamedAIProvider>::empty());
                    reveal_with_fuel(first_refusal, 2);
                }
                assert(first_refusal(providers@, provider_refusal()) == self.refusal());
                let group = translate_group(providers)?;
                let r = AIBackend { providers: vec![group] };
                assert(named_providers(seq![given]) =~= seq![named_provider(given)]);
                assert(r@ =~= self.providers());
                return Ok(r);
            },
            LocalAIBackend::Groups { groups } => groups,
        };
        let ghost all = groups@;
        let ghost made = self.providers();
        let mut ep_groups: Vec<Vec<(String, NamedAIProvider)>> = Vec::new();
        for g in it: groups.into_iter()
            invariant
                it.seq() == all,
                made == all.map_values(|g: LocalAIProviders| named_providers(g.providers@)),
                self.refusal() == first_refusal(all, group_refusal()),
                first_refusal(all.take(it.index() as int), group_refusal()) is None,
                ep_groups@.len() == it.index(),
                forall|j: int|
                    0 <= j < it.index() ==> group_view((#[trigger] ep_groups@[j])@) == made[j],
        {
            let ghost n = it.index() as int;
            proof {
                lemma_first_refusal(all, group_refusal(), n);
            }
            let group = translate_group(g.providers)?;
            ep_groups.push(group);
        }
        assert(all.take(all.len() as int) =~= all);
        let r = AIBackend { providers: ep_groups };
        assert(r@ =~= made);
        Ok(r)
    }
}

// ---------------------------------------------------------------------------------------------
// MCP backends
// ---------------------------------------------------------------------------------------------

/// Whether sessions keep state.
#[derive(Debug, Clone, Copy, PartialEq, Eq, Structural)]
pub enum McpStatefulMode {
    Stateless,
    Stateful,
}

/// When the names of tools begin with the name of their target.
#[derive(Debug, Clone, Copy, PartialEq, Eq, Structural)]
pub enum McpPrefixMode {
    Always,
    Conditional,
}

/// How an MCP target is reached.
#[derive(Debug)]
pub enum LocalMcpTargetSpec {
    Sse { backend: McpBackendHost },
    Mcp { backend: McpBackendHost },
    Stdio { cmd: String, args: Vec<String>, env: Vec<(String, String)>, clear_env: bool },
    OpenAPI { backend: McpBackendHost, schema: Loaded<PolicyBody> },
}

/// A target of an MCP backend. `name_check` tells whether the name can be that of a target.
#[derive(Debug)]
pub struct LocalMcpTarget {
    pub name: String,
    pub name_check: Result<(), String>,
    pub spec: LocalMcpTargetSpec,
    pub policies: Option<MCPLocalBackendPolicies>,
}

/// MCP targets behind one endpoint.
#[derive(Debug)]
pub struct LocalMcpBackend {
    pub targets: Vec<LocalMcpTarget>,
    pub stateful_mode: McpStatefulMode,
    pub prefix_mode: Option<McpPrefixMode>,
    /// Behavior when targets fail. Fails closed where nothing is set.
    pub failure_mode: Option<FailureMode>,
}

impl MCPLocalBackendPolicies {
    /// The policies among those of every backend.
    pub open spec fn full(self) -> LocalBackendPolicies {
        LocalBackendPolicies {
            mcp_authorization: self.mcp_authorization,
            ext_mcp: self.ext_mcp,
            ..LocalBackendPolicies::of_simple(self.simple)
        }
    }
}

/// The policies of a target among those of every backend.
pub open spec fn full_policies(policies: Option<MCPLocalBackendPolicies>) -> Option<
    LocalBackendPolicies,
> {
    match policies {
        Some(p) => Some(p.full()),
        None => None,
    }
}

/// Why the backend of a target is refused, if it is. `default_tls` is what loading the default
/// settings of TLS came to.
pub open spec fn mcp_backend_refusal(
    policies: Option<MCPLocalBackendPolicies>,
    tls: bool,
    default_tls: Loaded<PolicyBody>,
) -> Option<Text> {
    first_of(
        backend_refusal(full_policies(policies)),
        match default_tls {
            Err(e) => if tls {
                Some(e@)
            } else {
                None
            },
            Ok(_) => None,
        },
    )
}

/// The policies of the backend of a target: its own, and TLS where its address asks for it.
pub open spec fn mcp_backend_policies(
    policies: Option<MCPLocalBackendPolicies>,
    tls: bool,
    default_tls: Loaded<PolicyBody>,
) -> Seq<BackendTrafficPolicy> {
    backend_policies(full_policies(policies)) + one(
        if tls {
            Some(BackendTrafficPolicy::BackendTLS(default_tls->Ok_0))
        } else {
            None
        },
    )
}

/// The reference to a backend at an address, and the backend. An address with TLS implies policies,
/// so the backend cannot be written in place of the reference.
pub fn mcp_to_simple_backend_and_ref(name: ResourceName, b: Target) -> (r: (
    SimpleBackendReference,
    Option<Backend>,
))
    ensures
        r.0@ == SimpleBackendReferenceView::Backend(name@.full()),
        opt_view(r.1) == Some(BackendView::Opaque(name@, b@)),
{
    let bref = SimpleBackendReference::Backend(name.to_text());
    let backend = SimpleLocalBackend::Opaque(b).as_backend(name);
    (bref, backend)
}

/// The name of the backend of the target at a place.
pub open spec fn target_backend_name(name: ResourceNameView, idx: int) -> Text {
    "mcp/"@ + name.full() + "/"@ + decimal(idx as nat)
}

/// The address of a target, if it has one.
pub open spec fn target_host(spec: LocalMcpTargetSpec) -> Option<McpBackendHost> {
    match spec {
        LocalMcpTargetSpec::Sse { backend } => Some(backend),
        LocalMcpTargetSpec::Mcp { backend } => Some(backend),
        LocalMcpTargetSpec::Stdio { .. } => None,
        LocalMcpTargetSpec::OpenAPI { backend, .. } => Some(backend),
    }
}

/// Why the address of a target is refused, if it is.
pub open spec fn host_refusal(
    host: McpBackendHost,
    policies: Option<MCPLocalBackendPolicies>,
    default_tls: Loaded<PolicyBody>,
) -> Option<Text> {
    match host.processed() {
        Err(e) => Some(e),
        Ok(ProcessedView::Inline { backend: _, path: _, tls }) => mcp_backend_refusal(
            policies,
            tls,
            default_tls,
        ),
        Ok(ProcessedView::Reference { .. }) => if policies is Some {
            Some("cannot use backend reference when policies are defined for an MCP target"@)
        } else {
            None
        },
    }
}

/// The reference by which a target is reached, and the path there.
pub open spec fn host_reference(
    name: ResourceNameView,
    idx: int,
    host: McpBackendHost,
) -> (SimpleBackendReferenceView, Option<Text>) {
    match host.processed() {
        Ok(ProcessedView::Inline { backend: _, path, tls: _ }) => (
            SimpleBackendReferenceView::Backend(
                local_name_of(target_backend_name(name, idx)).full(),
            ),
            Some(path),
        ),
        Ok(ProcessedView::Reference { backend, path }) => (backend, path),
        Err(_) => (SimpleBackendReferenceView::Invalid, None),
    }
}

/// The backend that is made for a target, if its address is written in place.
pub open spec fn host_backend(
    name: ResourceNameView,
    idx: int,
    host: McpBackendHost,
    policies: Option<MCPLocalBackendPolicies>,
    default_tls: Loaded<PolicyBody>,
) -> Option<BackendWithPoliciesView> {
    match host.processed() {
        Ok(ProcessedView::Inline { backend, path: _, tls }) => Some(
            BackendWithPoliciesView {
                backend: BackendView::Opaque(
                    local_name_of(target_backend_name(name, idx)),
                    backend,
                ),
                inline_policies: views(mcp_backend_policies(policies, tls, default_tls)),
            },
        ),
        _ => None,
    }
}

/// Why a target is refused, if it is. The name comes first, then the address and the policies, then
/// what else the target needs.
pub open spec fn target_refusal(
    t: LocalMcpTarget,
    default_tls: Loaded<PolicyBody>,
) -> Option<Text> {
    first_of(
        match t.name_check {
            Err(e) => Some(e@),
            Ok(_) => None,
        },
        first_of(
            match target_host(t.spec) {
                Some(host) => host_refusal(host, t.policies, default_tls),
                None => None,
            },
            match t.spec {
                LocalMcpTargetSpec::Sse { backend } => path_refusal(backend),
                LocalMcpTargetSpec::Mcp { backend } => path_refusal(backend),
                LocalMcpTargetSpec::Stdio { .. } => None,
                LocalMcpTargetSpec::OpenAPI { backend: _, schema } => match schema {
                    Err(e) => Some(e@),
                    Ok(_) => None,
                },
            },
        ),
    )
}

/// A target by reference needs a path.
pub open spec fn path_refusal(host: McpBackendHost) -> Option<Text> {
    match host.processed() {
        Ok(ProcessedView::Reference { backend: _, path: None }) => Some(
            "path is required when backend is set"@,
        ),
        _ => None,
    }
}

/// The target at a place, as it is served.
pub open spec fn served_target(
    name: ResourceNameView,
    idx: int,
    t: LocalMcpTarget,
) -> McpTargetView {
    McpTargetView {
        name: t.name@,
        spec: match t.spec {
            LocalMcpTargetSpec::Sse { backend } => {
                let (bref, path) = host_reference(name, idx, backend);
                McpTargetSpecView::Sse { backend: bref, path: path->0 }
            },
            LocalMcpTargetSpec::Mcp { backend } => {
                let (bref, path) = host_reference(name, idx, backend);
                McpTargetSpecView::Mcp { backend: bref, path: path->0 }
            },
            LocalMcpTargetSpec::Stdio { cmd, args, env, clear_env } => McpTargetSpecView::Stdio {
                cmd: cmd@,
                args: texts(args@),
                env: pair_texts(env@),
                clear_env,
            },
            LocalMcpTargetSpec::OpenAPI { backend, schema } => McpTargetSpecView::OpenAPI {
                backend: host_reference(name, idx, backend).0,
                schema: schema->Ok_0,
            },
        },
    }
}

/// The backend that is made for the target at a place, if one is.
pub open spec fn target_backend(
    name: ResourceNameView,
    idx: int,
    t: LocalMcpTarget,
    default_tls: Loaded<PolicyBody>,
) -> Seq<BackendWithPoliciesView> {
    one(
        match target_host(t.spec) {
            Some(host) => host_backend(name, idx, host, t.policies, default_tls),
            None => None,
        },
    )
}

/// Why the target at a place is refused, if it is.
pub open spec fn target_refusals(default_tls: Loaded<PolicyBody>) -> spec_fn(
    int,
    LocalMcpTarget,
) -> Option<Text> {
    |i: int, t: LocalMcpTarget| target_refusal(t, default_tls)
}

/// The backends that are made for the target at a place.
pub open spec fn target_backends(
    name: ResourceNameView,
    default_tls: Loaded<PolicyBody>,
) -> spec_fn(int, LocalMcpTarget) -> Seq<BackendWithPoliciesView> {
    |i: int, t: LocalMcpTarget| target_backend(name, i, t, default_tls)
}

/// The targets as they are served.
pub open spec fn served_targets(name: ResourceNameView, targets: Seq<LocalMcpTarget>) -> Seq<
    McpTargetView,
> {
    targets.map(|i: int, t: LocalMcpTarget| served_target(name, i, t))
}

impl LocalMcpBackend {
    /// The backend as it is served.
    pub open spec fn served(self, name: ResourceNameView, session_ttl: Nanos) -> McpBackendView {
        McpBackendView {
            targets: served_targets(name, self.targets@),
            stateful: self.stateful_mode == McpStatefulMode::Stateful,
            always_use_prefix: self.prefix_mode == Some(McpPrefixMode::Always),
            failure_mode: match self.failure_mode {
                Some(m) => m,
                None => FailureMode::FailClosed,
            },
            session_idle_ttl: session_ttl,
        }
    }

    /// The backends that are made: those of the targets, and then the backend itself.
    pub open spec fn backends(
        self,
        name: ResourceNameView,
        default_tls: Loaded<PolicyBody>,
        session_ttl: Nanos,
    ) -> Seq<BackendWithPoliciesView> {
        gathered(self.targets@, target_backends(name, default_tls)).push(
            plain_backend(BackendView::MCP(name, self.served(name, session_ttl))),
        )
    }
}

fn make_mcp_backend(
    b: Backend,
    policies: Option<MCPLocalBackendPolicies>,
    tls: bool,
    default_tls: &Loaded<PolicyBody>,
) -> (r: Result<BackendWithPolicies, ConfigError>)
    ensures
        match r {
            Ok(made) => mcp_backend_refusal(policies, tls, *default_tls) is None && made.backend
                == b && made.inline_policies@ == mcp_backend_policies(policies, tls, *default_tls),
            Err(e) => mcp_backend_refusal(policies, tls, *default_tls) == Some(e@),
        },
{
    let full = match policies {
        Some(p) => {
            let ghost given = p;
            let mut full = LocalBackendPolicies::simple(p.simple);
            full.mcp_authorization = p.mcp_authorization;
            full.ext_mcp = p.ext_mcp;
            assert(full == given.full());
            Some(full)
        },
        None => None,
    };
    let mut inline_policies = translate_backend_policies(full)?;
    let tls_policy = if tls {
        match default_tls {
            Ok(p) => Some(BackendTrafficPolicy::BackendTLS(p.clone())),
            Err(e) => {
                return Err(ConfigError::of(e.clone()));
            },
        }
    } else {
        None
    };
    crate::local::error::push_opt(&mut inline_policies, tls_policy);
    Ok(BackendWithPolicies { backend: b, inline_policies })
}

fn process_backend(
    name: &ResourceName,
    idx: usize,
    host: McpBackendHost,
    policies: Option<MCPLocalBackendPolicies>,
    default_tls: &Loaded<PolicyBody>,
) -> (r: Result<
    (SimpleBackendReference, Option<String>, Option<BackendWithPolicies>),
    ConfigError,
>)
    ensures
        match r {
            Ok(p) => {
                &&& host_refusal(host, policies, *default_tls) is None
                &&& (p.0@, opt_text(p.1)) == host_reference(name@, idx as int, host)
                &&& opt_view(p.2) == host_backend(name@, idx as int, host, policies, *default_tls)
            },
            Err(e) => host_refusal(host, policies, *default_tls) == Some(e@),
        },
{
    match host.process()? {
        ProcessedMcpBackendHost::Inline { backend, path, tls } => {
            let digits = to_decimal(idx as u64);
            let full = name.to_text();
            let text = join4("mcp/", full.as_str(), "/", digits.as_str());
            let (bref, be) = mcp_to_simple_backend_and_ref(local_name(text), backend);
            let made = match be {
                Some(b) => Some(make_mcp_backend(b, policies, tls, default_tls)?),
                None => None,
            };
            Ok((bref, Some(path), made))
        },
        ProcessedMcpBackendHost::Reference { backend, path } => {
            if policies.is_some() {
                return Err(
                    ConfigError::new(
                        "cannot use backend reference when policies are defined for an MCP target",
                    ),
                );
            }
            Ok((backend, path, None))
        },
    }
}

fn require_path(path: Option<String>) -> (r: Result<String, ConfigError>)
    ensures
        match path {
            Some(p) => r == Ok::<String, ConfigError>(p),
            None => r is Err && r->Err_0@ == "path is required when backend is set"@,
        },
{
    match path {
        Some(p) => Ok(p),
        None => Err(ConfigError::new("path is required when backend is set")),
    }
}

fn convert_target(
    name: &ResourceName,
    idx: usize,
    t: LocalMcpTarget,
    default_tls: &Loaded<PolicyBody>,
) -> (r: Result<(McpTarget, Option<BackendWithPolicies>), ConfigError>)
    ensures
        match r {
            Ok(p) => {
                &&& target_refusal(t, *default_tls) is None
                &&& p.0@ == served_target(name@, idx as int, t)
                &&& one(opt_view(p.1)) == target_backend(name@, idx as int, t, *default_tls)
            },
            Err(e) => target_refusal(t, *default_tls) == Some(e@),
        },
{
    match t.name_check {
        Ok(_) => {},
        Err(e) => {
            return Err(ConfigError::of(e));
        },
    }
    let (spec, made) = match t.spec {
        LocalMcpTargetSpec::Sse { backend } => {
            let (bref, path, made) = process_backend(name, idx, backend, t.policies, default_tls)?;
            let path = require_path(path)?;
            (McpTargetSpec::Sse { backend: bref, path }, made)
        },
        LocalMcpTargetSpec::Mcp { backend } => {
            let (bref, path, made) = process_backend(name, idx, backend, t.policies, default_tls)?;
            let path = require_path(path)?;
            (McpTargetSpec::Mcp { backend: bref, path }, made)
        },
        LocalMcpTargetSpec::Stdio { cmd, args, env, clear_env } => (
            McpTargetSpec::Stdio { cmd, args, env, clear_env },
            None,
        ),
        LocalMcpTargetSpec::OpenAPI { backend, schema } => {
            let (bref, _, made) = process_backend(name, idx, backend, t.policies, default_tls)?;
            let schema = match schema {
                Ok(s) => s,
                Err(e) => {
                    return Err(ConfigError::of(e));
                },
            };
            (McpTargetSpec::OpenAPI { backend: bref, schema }, made)
        },
    };
    Ok((McpTarget { name: t.name, spec: Arc::new(spec) }, made))
}

fn mcp_backends(
    tgt: LocalMcpBackend,
    name: ResourceName,
    default_tls: &Loaded<PolicyBody>,
    mcp_session_ttl: Nanos,
) -> (r: Result<Vec<BackendWithPolicies>, ConfigError>)
    ensures
        match r {
            Ok(list) => first_refusal(tgt.targets@, target_refusals(*default_tls)) is None && views(
                list@,
            ) == tgt.backends(name@, *default_tls, mcp_session_ttl),
            Err(e) => first_refusal(tgt.targets@, target_refusals(*default_tls)) == Some(e@),
        },
{
    let ghost all = tgt.targets@;
    let ghost given = tgt;
    let mut targets: Vec<Arc<McpTarget>> = Vec::new();
    let mut backends: Vec<BackendWithPolicies> = Vec::new();
    assert(all.take(0) =~= Seq::<LocalMcpTarget>::empty());
    assert(views(backends@) =~= Seq::<BackendWithPoliciesView>::empty());
    for t in it: tgt.targets.into_iter()
        invariant
            it.seq() == all,
            first_refusal(all.take(it.index() as int), target_refusals(*default_tls)) is None,
            targets@.len() == it.index(),
            forall|j: int|
                0 <= j < it.index() ==> (*(#[trigger] targets@[j]))@ == served_target(
                    name@,
                    j,
                    all[j],
                ),
            views(backends@) == gathered(
                all.take(it.index() as int),
                target_backends(name@, *default_tls),
            ),
    {
        let ghost n = it.index() as int;
        proof {
            lemma_first_refusal(all, target_refusals(*default_tls), n);
            lemma_gathered(all, target_backends(name@, *default_tls), n);
        }
        let idx: usize = targets.len();
        let (target, made) = convert_target(&name, idx, t, default_tls)?;
        crate::local::error::add_opt(&mut backends, made);
        targets.push(Arc::new(target));
    }
    assert(all.take(all.len() as int) =~= all);
    let m = McpBackend {
        targets,
        stateful: match tgt.stateful_mode {
            McpStatefulMode::Stateless => false,
            McpStatefulMode::Stateful => true,
        },
        always_use_prefix: match tgt.prefix_mode {
            Some(McpPrefixMode::Always) => true,
            _ => false,
        },
        failure_mode: match tgt.failure_mode {
            Some(m) => m,
            None => FailureMode::default(),
        },
        session_idle_ttl: mcp_session_ttl,
    };
    assert(m@ =~= given.served(name@, mcp_session_ttl)) by {
        assert(mcp_target_views(m.targets@) =~= served_targets(name@, all));
    }
    let ghost held = backends@;
    backends.push(BackendWithPolicies::plain(Backend::MCP(name, m)));
    proof {
        lemma_views(held, Seq::empty());
    }
    Ok(backends)
}

// ---------------------------------------------------------------------------------------------
// Backends
// ---------------------------------------------------------------------------------------------

/// A backend of Amazon Web Services.
#[derive(Debug)]
pub struct LocalAwsBackend {
    pub service: LocalAwsService,
}

/// A service of Amazon Web Services.
#[derive(Debug)]
pub enum LocalAwsService {
    AgentCore(LocalAgentCoreBackend),
}

/// An agent runtime. `config` is what reading its name and qualifier came to.
#[derive(Debug)]
pub struct LocalAgentCoreBackend {
    pub agent_runtime_arn: String,
    pub qualifier: Option<String>,
    pub config: Loaded<PolicyBody>,
}

/// A backend.
#[derive(Debug)]
pub enum LocalBackend {
    /// A service. It must be defined in the list of services.
    Service { name: NamespacedHostname, port: u16 },
    /// A backend. It must be defined in the list of backends.
    Backend(BackendKey),
    /// A hostname or an address.
    Opaque(Target),
    /// Whatever the request asks for.
    Dynamic,
    MCP(LocalMcpBackend),
    AI(LocalAIBackend),
    Aws(LocalAwsBackend),
    /// A group of routes. It must be defined in the list of groups.
    RouteGroup(RouteGroupKey),
    Invalid,
}

/// A backend of the list of backends.
#[derive(Debug)]
pub struct FullLocalBackend {
    pub name: BackendKey,
    pub spec: FullLocalBackendSpec,
    pub policies: Option<LocalBackendPolicies>,
}

/// What a backend of the list of backends can be.
#[derive(Debug)]
pub enum FullLocalBackendSpec {
    Opaque(Target),
    MCP(LocalMcpBackend),
    AI(LocalAIBackend),
    Aws(LocalAwsBackend),
}

impl FullLocalBackendSpec {
    /// The backend among those of every kind.
    pub open spec fn among_all(self) -> LocalBackend {
        match self {
            FullLocalBackendSpec::Opaque(t) => LocalBackend::Opaque(t),
            FullLocalBackendSpec::MCP(m) => LocalBackend::MCP(m),
            FullLocalBackendSpec::AI(a) => LocalBackend::AI(a),
            FullLocalBackendSpec::Aws(a) => LocalBackend::Aws(a),
        }
    }
}

impl From<FullLocalBackendSpec> for LocalBackend {
    fn from(spec: FullLocalBackendSpec) -> (r: Self) {
        match spec {
            FullLocalBackendSpec::Opaque(t) => LocalBackend::Opaque(t),
            FullLocalBackendSpec::MCP(m) => LocalBackend::MCP(m),
            FullLocalBackendSpec::AI(a) => LocalBackend::AI(a),
            FullLocalBackendSpec::Aws(a) => LocalBackend::Aws(a),
        }
    }
}

impl vstd::std_specs::convert::FromSpecImpl<FullLocalBackendSpec> for LocalBackend {
    open spec fn obeys_from_spec() -> bool {
        true
    }

    open spec fn from_spec(spec: FullLocalBackendSpec) -> Self {
        spec.among_all()
    }
}

impl LocalBackend {
    /// Why the backend is refused, if it is.
    pub open spec fn refusal(self, default_tls: Loaded<PolicyBody>) -> Option<Text> {
        match self {
            LocalBackend::MCP(m) => first_refusal(m.targets@, target_refusals(default_tls)),
            LocalBackend::AI(a) => a.refusal(),
            LocalBackend::Aws(LocalAwsBackend { service: LocalAwsService::AgentCore(ac) }) =>
                match ac.config {
                Err(e) => Some(e@),
                Ok(_) => None,
            },
            _ => None,
        }
    }

    /// The backends that are made. References stay references: nothing is made for them.
    pub open spec fn backends(
        self,
        name: ResourceNameView,
        default_tls: Loaded<PolicyBody>,
        session_ttl: Nanos,
    ) -> Seq<BackendWithPoliciesView> {
        match self {
            LocalBackend::Service { .. } => Seq::empty(),
            LocalBackend::Backend(_) => Seq::empty(),
            LocalBackend::Opaque(t) => seq![plain_backend(BackendView::Opaque(name, t@))],
            LocalBackend::Dynamic => seq![plain_backend(BackendView::Dynamic(name))],
            LocalBackend::MCP(m) => m.backends(name, default_tls, session_ttl),
            LocalBackend::AI(a) => seq![plain_backend(BackendView::AI(name, a.providers()))],
            LocalBackend::Aws(LocalAwsBackend { service: LocalAwsService::AgentCore(ac) }) =>
                seq![plain_backend(BackendView::Aws(name, ac.config->Ok_0))],
            LocalBackend::RouteGroup(_) => Seq::empty(),
            LocalBackend::Invalid => seq![plain_backend(BackendView::Invalid)],
        }
    }

    /// The backends that are made, under the given name. An MCP backend makes one for each target
    /// whose address is written in place, and then itself. `default_tls` is what loading the
    /// default settings of TLS came to.
    pub fn as_backends(
        self,
        name: ResourceName,
        default_tls: &Loaded<PolicyBody>,
        mcp_session_ttl: Nanos,
    ) -> (r: Result<Vec<BackendWithPolicies>, ConfigError>)
        ensures
            match r {
                Ok(list) => self.refusal(*default_tls) is None && views(list@) == self.backends(
                    name@,
                    *default_tls,
                    mcp_session_ttl,
                ),
                Err(e) => self.refusal(*default_tls) == Some(e@),
            },
    {
        match self {
            LocalBackend::Service { .. } => Ok(made_of(None)),
            LocalBackend::Backend(_) => Ok(made_of(None)),
            LocalBackend::Opaque(t) => Ok(made_of(Some(Backend::Opaque(name, t)))),
            LocalBackend::Dynamic => Ok(made_of(Some(Backend::Dynamic(name)))),
            LocalBackend::MCP(tgt) => mcp_backends(tgt, name, default_tls, mcp_session_ttl),
            LocalBackend::AI(tgt) => {
                let be = tgt.translate()?;
                Ok(made_of(Some(Backend::AI(name, be))))
            },
            LocalBackend::Aws(aws_backend) => {
                let config = match aws_backend.service {
                    LocalAwsService::AgentCore(ac) => ac.config,
                };
                match config {
                    Ok(c) => Ok(made_of(Some(Backend::Aws(name, c)))),
                    Err(e) => Err(ConfigError::of(e)),
                }
            },
            LocalBackend::RouteGroup(_) => Ok(made_of(None)),
            LocalBackend::Invalid => Ok(made_of(Some(Backend::Invalid))),
        }
    }
}

fn made_of(b: Option<Backend>) -> (r: Vec<BackendWithPolicies>)
    ensures
        views(r@) == (match b {
            Some(b) => seq![plain_backend(b@)],
            None => Seq::empty(),
        }),
{
    let mut out: Vec<BackendWithPolicies> = Vec::new();
    match b {
        Some(b) => {
            let ghost given = b@;
            out.push(BackendWithPolicies::plain(b));
            assert(views(out@) =~= seq![plain_backend(given)]);
        },
        None => {
            assert(views(out@) =~= Seq::<BackendWithPoliciesView>::empty());
        },
    }
    out
}

} // verus!
