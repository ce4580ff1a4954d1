//! Serving requests to MCP backends.

use std::sync::Arc;

use vstd::prelude::*;

use crate::mcp::ext_mcp::ExtMcp;
use crate::mcp::{FailureMode, HttpResponse, DEFAULT_SESSION_IDLE_TTL};
use crate::proxy::ProxyError;
use crate::store::model::StoreView;
use crate::store::policies::{merged, BackendPolicies};
use crate::store::selection::backend_policies_of;
use crate::store::updater::StoreUpdater;
use crate::text::{contains_text, holds_text, same_text};
use crate::types::agent;
use crate::types::agent::{
    BackendTargetRef, McpBackend, McpTargetSpec, PolicyTargetView, ResourceName, SimpleBackend,
    SimpleBackendReference, SimpleBackendWithPolicies,
};
use crate::types::policy::{Encoder, McpAuthentication, McpAuthorizationSet, Nanos};
use crate::types::traffic::BackendTrafficPolicy;

verus! {

/// Keeps the sessions of clients.
#[derive(Debug)]
pub struct SessionManager {
    pub encoder: Encoder,
}

/// Serves requests to MCP backends.
pub struct App {
    pub state: StoreUpdater,
    pub session: Arc<SessionManager>,
}

/// A target of a backend, with what it is reached by.
#[derive(Debug)]
pub struct McpTarget {
    pub name: String,
    pub spec: Arc<McpTargetSpec>,
    pub backend_policies: BackendPolicies,
    pub backend: Option<SimpleBackend>,
    pub always_use_prefix: bool,
}

/// The targets of a backend.
#[derive(Debug)]
pub struct McpBackendGroup {
    pub targets: Vec<Arc<McpTarget>>,
    pub stateful: bool,
    pub failure_mode: FailureMode,
    pub session_idle_ttl: Nanos,
}

impl Default for McpBackendGroup {
    fn default() -> (r: Self)
        ensures
            r.targets@.len() == 0,
            r.stateful,
            r.failure_mode == FailureMode::FailClosed,
            r.session_idle_ttl == DEFAULT_SESSION_IDLE_TTL,
    {
        McpBackendGroup {
            targets: Vec::new(),
            stateful: true,
            failure_mode: FailureMode::default(),
            session_idle_ttl: DEFAULT_SESSION_IDLE_TTL,
        }
    }
}

/// What the backend of a target resolved to. A target without a backend has none.
pub type Resolved = Option<Result<SimpleBackendWithPolicies, ProxyError>>;

/// The policies that the backend of a target has of its own.
pub open spec fn own_policies(resolved: Resolved) -> Seq<Seq<BackendTrafficPolicy>> {
    match resolved {
        Some(Ok(b)) => seq![b.inline_policies@],
        _ => Seq::empty(),
    }
}

/// Whether policies are those of a target of the backend `group`, in which what the target itself
/// sets has precedence over what `base`, the policies of the backend, sets.
pub open spec fn target_policies(
    policies: BackendPolicies,
    store: StoreView,
    group: ResourceName,
    target: agent::McpTarget,
    resolved: Resolved,
    base: BackendPolicies,
) -> bool {
    exists|own: BackendPolicies|
        #![trigger merged(own, base)]
        policies == merged(own, base) && backend_policies_of(
            own,
            store.backend_rules(
                None,
                Some(
                    PolicyTargetView::Backend {
                        name: group.name@,
                        namespace: group.namespace@,
                        section: Some(target.name@),
                    },
                ),
                own_policies(resolved),
                None,
                Seq::empty(),
            ),
        )
}

/// Whether a target of a group stands for a target of a backend.
pub open spec fn group_target(
    made: McpTarget,
    store: StoreView,
    group: ResourceName,
    target: agent::McpTarget,
    resolved: Resolved,
    base: BackendPolicies,
    always_use_prefix: bool,
) -> bool {
    &&& made.name == target.name
    &&& made.spec == target.spec
    &&& made.backend == (match resolved {
        Some(Ok(b)) => Some(b.backend),
        _ => None,
    })
    &&& target_policies(made.backend_policies, store, group, target, resolved, base)
    &&& made.always_use_prefix == always_use_prefix
}

/// Whether the first `n` targets resolved.
pub open spec fn all_resolved(resolved: Seq<Resolved>, n: int) -> bool {
    forall|i: int| 0 <= i < n ==> !((#[trigger] resolved[i]) matches Some(Err(_)))
}

/// What a relay works on.
#[derive(Debug)]
pub struct RelayInputs {
    pub backend: McpBackendGroup,
    pub policies: Arc<McpAuthorizationSet>,
    pub ext_mcp: Option<Arc<ExtMcp>>,
}

/// What is done with a request.
#[derive(Debug)]
pub enum Serve {
    /// It fails.
    Fail(ProxyError),
    /// It is answered.
    Respond(Arc<HttpResponse>),
    /// It is relayed, by the server-sent events of old.
    LegacySse { inputs: RelayInputs },
    /// It is relayed, by streamable HTTP.
    Streamable { stateful_mode: bool, inputs: RelayInputs },
}

impl App {
    /// Serves requests from the store.
    pub fn new(state: StoreUpdater, encoder: Encoder) -> (r: Self)
        ensures
            r.state == state,
            r.session.encoder == encoder,
    {
        App { state, session: Arc::new(SessionManager { encoder }) }
    }

    /// The backend that a request goes to as it is, if it does: a request for the well-known
    /// documents of the only target of a backend, where the gateway does not authenticate itself.
    pub open spec fn passes_to(
        backend_policies: BackendPolicies,
        backend: McpBackend,
        path: Seq<char>,
    ) -> Option<SimpleBackendReference> {
        if backend.targets@.len() == 1 && backend_policies.mcp_authentication is None
            && holds_text(path, "/.well-known/"@) {
            match *backend.targets@[0].spec {
                McpTargetSpec::Mcp { backend: b, .. } => Some(b),
                McpTargetSpec::Sse { backend: b, .. } => Some(b),
                _ => None,
            }
        } else {
            None
        }
    }

    /// The backend that a request goes to as it is, if it does.
    pub fn should_passthrough(
        &self,
        backend_policies: &BackendPolicies,
        backend: &McpBackend,
        path: &str,
    ) -> (r: Option<SimpleBackendReference>)
        ensures
            match App::passes_to(*backend_policies, *backend, path@) {
                Some(b) => r is Some && r->0@ == b@,
                None => r is None,
            },
    {
        if backend.targets.len() != 1 {
            return None;
        }
        if backend_policies.mcp_authentication.is_some() {
            return None;
        }
        if !contains_text(path, "/.well-known/") {
            return None;
        }
        match &*backend.targets[0].spec {
            McpTargetSpec::Mcp { backend: b, path: _ } => Some(b.copy()),
            McpTargetSpec::Sse { backend: b, path: _ } => Some(b.copy()),
            _ => None,
        }
    }

    /// The targets of a backend with what their backends resolved to. Each has the policies of the
    /// backend, and before them those of the target. Fails where one did not resolve.
    pub fn backend_group(
        &self,
        backend_group_name: &ResourceName,
        backend: &McpBackend,
        backend_policies: &BackendPolicies,
        resolved: Vec<Resolved>,
    ) -> (r: Result<McpBackendGroup, ProxyError>)
        requires
            self.state.store().wf(),
            resolved@.len() == backend.targets@.len(),
        ensures
            match r {
                Ok(group) => {
                    &&& all_resolved(resolved@, resolved@.len() as int)
                    &&& group.targets@.len() == backend.targets@.len()
                    &&& forall|i: int|
                        0 <= i < backend.targets@.len() ==> group_target(
                            *(#[trigger] group.targets@[i]),
                            self.state.store()@,
                            *backend_group_name,
                            *backend.targets@[i],
                            resolved@[i],
                            *backend_policies,
                            backend.always_use_prefix,
                        )
                    &&& group.stateful == backend.stateful
                    &&& group.failure_mode == backend.failure_mode
                    &&& group.session_idle_ttl == backend.session_idle_ttl
                },
                Err(e) => exists|n: int|
                    0 <= n < resolved@.len() && all_resolved(resolved@, n) && (
                    #[trigger] resolved@[n]) == Some(Err::<SimpleBackendWithPolicies, ProxyError>(e)),
            },
    {
        let ghost all = resolved@;
        let mut targets: Vec<Arc<McpTarget>> = Vec::new();
        for res in it: resolved.into_iter()
            invariant
                self.state.store().wf(),
                it.seq() == all,
                all.len() == backend.targets@.len(),
                all_resolved(all, it.index() as int),
                targets@.len() == it.index(),
                forall|i: int|
                    0 <= i < it.index() ==> group_target(
                        *(#[trigger] targets@[i]),
                        self.state.store()@,
                        *backend_group_name,
                        *backend.targets@[i],
                        all[i],
                        *backend_policies,
                        backend.always_use_prefix,
                    ),
        {
            let ghost n = it.index() as int;
            let ghost given = res;
            assert(given == all[n]);
            let t = &backend.targets[targets.len()];
            let be = match res {
                Some(Ok(b)) => Some(b),
                Some(Err(e)) => {
                    return Err(e);
                },
                None => None,
            };
            let own = self.state.read().sub_backend_policies(
                BackendTargetRef::Backend {
                    name: backend_group_name.name.as_str(),
                    namespace: backend_group_name.namespace.as_str(),
                    section: Some(t.name.as_str()),
                },
                match &be {
                    Some(b) => Some(b.inline_policies.as_slice()),
                    None => None,
                },
            );
            let ghost own_given = own;
            let policies = backend_policies.share().merge(own);
            assert(policies == merged(own_given, *backend_policies));
            let made = McpTarget {
                name: t.name.clone(),
                spec: t.spec.clone(),
                backend_policies: policies,
                backend: match be {
                    Some(b) => Some(b.backend),
                    None => None,
                },
                always_use_prefix: backend.always_use_prefix,
            };
            assert(target_policies(
                made.backend_policies,
                self.state.store()@,
                *backend_group_name,
                **t,
                given,
                *backend_policies,
            ));
            targets.push(Arc::new(made));
        }
        Ok(
            McpBackendGroup {
                targets,
                stateful: backend.stateful,
                failure_mode: backend.failure_mode,
                session_idle_ttl: backend.session_idle_ttl,
            },
        )
    }

    /// The authentication that a request has to pass before it is relayed.
    pub fn authentication(backend_policies: &BackendPolicies) -> (r: Option<Arc<McpAuthentication>>)
        ensures
            r == backend_policies.mcp_authentication,
    {
        crate::types::policy::share(&backend_policies.mcp_authentication)
    }

    /// What is done with a request. `authentication` is what enforcing the authentication came to,
    /// if one is set: it fails, or answers the request, or lets it pass. The request is then
    /// relayed, under the authorization rules of the backend; without any, nothing is ruled out.
    /// A request for `/sse` is relayed in the old manner.
    pub fn serve(
        &self,
        backend: McpBackendGroup,
        backend_policies: &BackendPolicies,
        authentication: Result<Option<Arc<HttpResponse>>, ProxyError>,
        path: &str,
    ) -> (r: Serve)
        ensures
            match (backend_policies.mcp_authentication, authentication) {
                (Some(_), Err(e)) => r == Serve::Fail(e),
                (Some(_), Ok(Some(resp))) => r == Serve::Respond(resp),
                _ => {
                    let relays = |inputs: RelayInputs|
                        inputs.backend == backend && inputs.ext_mcp == backend_policies.ext_mcp
                            && match backend_policies.mcp_authorization {
                            Some(set) => inputs.policies == set,
                            None => inputs.policies.rule_sets@.len() == 0,
                        };
                    if path@ == "/sse"@ {
                        r matches Serve::LegacySse { inputs } && relays(inputs)
                    } else {
                        r matches Serve::Streamable { stateful_mode, inputs } && relays(inputs)
                            && stateful_mode == backend.stateful
                    }
                },
            },
    {
        if backend_policies.mcp_authentication.is_some() {
            match authentication {
                Err(e) => {
                    return Serve::Fail(e);
                },
                Ok(Some(resp)) => {
                    return Serve::Respond(resp);
                },
                Ok(None) => {},
            }
        }
        let stateful_mode = backend.stateful;
        let inputs = RelayInputs {
            backend,
            policies: match &backend_policies.mcp_authorization {
                Some(set) => set.clone(),
                None => Arc::new(McpAuthorizationSet::new(Vec::new())),
            },
            ext_mcp: crate::types::policy::share(&backend_policies.ext_mcp),
        };
        if same_text(path, "/sse") {
            Serve::LegacySse { inputs }
        } else {
            Serve::Streamable { stateful_mode, inputs }
        }
    }
}

/// A backend of several targets is never bypassed, nor one whose requests the gateway
/// authenticates.
pub proof fn only_open_single_targets_are_bypassed(
    backend_policies: BackendPolicies,
    backend: McpBackend,
    path: Seq<char>,
)
    ensures
        App::passes_to(backend_policies, backend, path) is Some ==> backend.targets@.len() == 1
            && backend_policies.mcp_authentication is None,
{
}

} // verus!
