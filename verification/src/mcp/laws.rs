//! Laws of what is known and said of MCP requests, and of how they are routed.


use vstd::prelude::*;

use crate::ext_proc;
use crate::mcp::ext_mcp::invalid_request;
use crate::mcp::router::{all_resolved, group_target, own_policies, App, McpTarget, Resolved};
use crate::mcp::{status_line, ClientError, Error, MCPInfo, MCPOperation, ResourceType};
use crate::proxy::ProxyError;
use crate::store::model::StoreView;
use crate::store::policies::{merged, BackendPolicies};
use crate::store::selection::backend_policies_of;
use crate::text::{holds_text, Text};
use crate::types::agent;
use crate::types::agent::{McpBackend, McpTargetSpec, PolicyTargetView, ResourceName};

verus! {

// ---------------------------------------------------------------------------------------------
// What is said of errors
// ---------------------------------------------------------------------------------------------

/// What is said of each error. Of a resource that is not allowed no more is said than that it is
/// not known.
pub proof fn errors_say_what_went_wrong(e: Error)
    ensures
        match e {
            Error::MethodNotAllowed => e.text()
                == "method not allowed; must be GET, POST, or DELETE"@,
            Error::InvalidAccept => e.text()
                == "client must accept both application/json and text/event-stream"@,
            Error::InvalidAcceptGet => e.text() == "client must accept text/event-stream"@,
            Error::InvalidContentType => e.text() == "client must send application/json"@,
            Error::Deserialize(m) => e.text() == "fail to deserialize request body: "@ + m@,
            Error::StartSession(m) => e.text() == "fail to create session: "@ + m@,
            Error::UnknownSession => e.text() == "session not found"@,
            Error::MissingSessionHeader => e.text()
                == "session header is required for non-initialize requests"@,
            Error::SessionIdRequired => e.text() == "session ID is required"@,
            Error::InvalidSessionIdHeader => e.text() == "invalid session ID header"@,
            Error::InvalidProtocolVersion => e.text() == "invalid MCP protocol version header"@,
            Error::Stdio(m) => e.text() == "failed to start stdio server: "@ + m@,
            Error::UpstreamError(resp) => e.text() == "upstream error: "@ + status_line(
                resp.status,
            ),
            Error::SendError(_, m) => e.text() == "send error: "@ + m@,
            Error::Authorization(_, kind, name) => e.text() == "Unknown "@ + kind@ + ": "@ + name@,
            Error::InvalidSessionIdQuery => e.text()
                == "failed to process session_id query parameter"@,
            Error::EstablishGetStream(m) => e.text() == "failed to establish get stream: "@ + m@,
            Error::ForwardLegacySse(m) => e.text() == "failed to forward message to legacy SSE: "@
                + m@,
            Error::CreateSseUrl(m) => e.text() == "failed to create SSE url: "@ + m@,
            Error::OpenAPI(m) => e.text() == "failed to parse openapi: "@ + m@,
            Error::NoBackends => e.text() == "no backends configured"@,
        },
{
}

/// What is said of an error of the proxy, and of one of a client, tells where it comes from and
/// then what is said of it there.
pub proof fn errors_tell_where_they_come_from(
    e: Error,
    x: ext_proc::Error,
    m: String,
    c: ClientError,
    reason: Text,
)
    ensures
        ProxyError::MCP(e).text() == "mcp: "@ + e.text(),
        ProxyError::ExtProc(x).text() == "ext_proc failed: "@ + x.text(),
        ProxyError::Processing(m).text() == "processing failed: "@ + m@,
        match c {
            ClientError::Status(resp) => c.text() == "http request failed with code: "@
                + status_line(resp.status),
            ClientError::General(g) => c.text() == "http request failed: "@ + (*g)@,
            ClientError::Proxy(p) => c.text() == "http request failed: "@ + p.text(),
        },
        invalid_request(reason) == "Failed to convert JSON-RPC to protobuf: "@ + (
        "processing failed: "@ + reason),
{
}

// ---------------------------------------------------------------------------------------------
// What is known of a request
// ---------------------------------------------------------------------------------------------

/// What a request is about: the target and the name of its tool if it calls one, else of its
/// prompt, else of its resource, and nothing if it is about none of these.
pub proof fn requests_are_about_one_thing(info: MCPInfo)
    ensures
        info.tool matches Some(t) ==> info.subject() == Some((t.target@, t.name@)),
        info.tool is None ==> (info.prompt matches Some(p) ==> info.subject() == Some(
            (p.target@, p.name@),
        )),
        info.tool is None && info.prompt is None ==> (info.resource matches Some(r)
            ==> info.subject() == Some((r.target@, r.name@))),
        info.tool is None && info.prompt is None && info.resource is None ==> info.subject() is None,
{
}

/// What is known of a request for a resource: that resource, and nothing else.
pub proof fn resources_are_all_that_is_known(value: ResourceType)
    ensures
        ({
            let info = MCPInfo::about(value);
            &&& info.method_name is None
            &&& info.session_id is None
            &&& match value {
                ResourceType::Tool(t) => {
                    &&& info.tool matches Some(tool) && tool.target == t.target && tool.name
                        == t.name && tool.arguments is None && tool.result is None && tool.error
                        is None
                    &&& info.prompt is None
                    &&& info.resource is None
                },
                ResourceType::Prompt(p) => info.tool is None && info.prompt == Some(p)
                    && info.resource is None,
                ResourceType::Resource(r) => info.tool is None && info.prompt is None
                    && info.resource == Some(r),
            }
            &&& info.exclusive()
            &&& info.subject() == Some(
                match value {
                    ResourceType::Tool(x) => (x.target@, x.name@),
                    ResourceType::Prompt(x) => (x.target@, x.name@),
                    ResourceType::Resource(x) => (x.target@, x.name@),
                },
            )
        }),
{
}

/// Each kind of operation has its own name.
pub proof fn operations_have_their_names(op: MCPOperation)
    ensures
        op == MCPOperation::Tool ==> op.label() == "tool"@,
        op == MCPOperation::Prompt ==> op.label() == "prompt"@,
        op == MCPOperation::Resource ==> op.label() == "resource"@,
        op == MCPOperation::ResourceTemplates ==> op.label() == "templates"@,
{
}

/// Nothing is known at first.
pub proof fn nothing_is_known_at_first(info: MCPInfo)
    ensures
        info == MCPInfo::unknown() <==> info.method_name is None && info.session_id is None
            && info.tool is None && info.prompt is None && info.resource is None,
        info.exclusive() <==> !(info.tool is Some && info.prompt is Some) && !(info.tool is Some
            && info.resource is Some) && !(info.prompt is Some && info.resource is Some),
{
}

// ---------------------------------------------------------------------------------------------
// Routing
// ---------------------------------------------------------------------------------------------

/// A request passes through to the backend of a target exactly if the target is the only one and is
/// reached over the network, its clients are not authenticated here, and the path asks for metadata
/// of the server.
pub proof fn metadata_requests_pass_through(
    policies: BackendPolicies,
    backend: McpBackend,
    path: Text,
)
    ensures
        backend.targets@.len() != 1 ==> App::passes_to(policies, backend, path) is None,
        policies.mcp_authentication is Some ==> App::passes_to(policies, backend, path) is None,
        !holds_text(path, "/.well-known/"@) ==> App::passes_to(policies, backend, path) is None,
        backend.targets@.len() == 1 && policies.mcp_authentication is None && holds_text(
            path,
            "/.well-known/"@,
        ) ==> match *backend.targets@[0].spec {
            McpTargetSpec::Mcp { backend: b, .. } => App::passes_to(policies, backend, path) == Some(
                b,
            ),
            McpTargetSpec::Sse { backend: b, .. } => App::passes_to(policies, backend, path) == Some(
                b,
            ),
            _ => App::passes_to(policies, backend, path) is None,
        },
{
}

/// A text is found in another exactly if the other is made of it with something in front and
/// something behind.
pub proof fn texts_are_found_inside(front: Text, part: Text, behind: Text)
    ensures
        holds_text(front + part + behind, part),
        part.len() > front.len() ==> !holds_text(front, part),
{
    let all = front + part + behind;
    let n = front.len() as int;
    assert(all.subrange(n, n + part.len()) =~= part);
}

/// A target of a group is served under its name as it is written, by the backend that it was
/// resolved to. Its policies are those of its section of the MCP backend, with the inline ones of
/// the backend in front; where they set nothing, those of the whole group hold.
pub proof fn targets_take_the_policies_of_their_section(
    made: McpTarget,
    store: StoreView,
    group: ResourceName,
    target: agent::McpTarget,
    resolved: Resolved,
    base: BackendPolicies,
    always_use_prefix: bool,
)
    requires
        group_target(made, store, group, target, resolved, base, always_use_prefix),
    ensures
        made.name == target.name,
        made.spec == target.spec,
        made.always_use_prefix == always_use_prefix,
        resolved matches Some(Ok(b)) ==> made.backend == Some(b.backend),
        resolved is None ==> made.backend is None,
        exists|own: BackendPolicies|
            #![trigger merged(own, base)]
            backend_policies_of(
                own,
                store.backend_rules(
                    None,
                    Some(
                        PolicyTargetView::Backend {
                            name: group.name@,
                            namespace: group.namespace@,
                            section: Some(target.name@),
                        },
                    ),
                    match resolved {
                        Some(Ok(b)) => seq![b.inline_policies@],
                        _ => Seq::empty(),
                    },
                    None,
                    Seq::empty(),
                ),
            ) && made.backend_policies == merged(own, base),
{
    let own = choose|own: BackendPolicies|
        #![trigger merged(own, base)]
        made.backend_policies == merged(own, base) && backend_policies_of(
            own,
            store.backend_rules(
                None,
                Some(
                    PolicyTargetView::Backend {
                        name: group.name@,
                        namespace: group.namespace@,
                        section: Some(target.name@),
                    },
                ),
                own_policies(resolved),
                None,
                Seq::empty(),
            ),
        );
    assert(made.backend_policies == merged(own, base));
}

/// Targets resolve as long as none of them fails; one that needs no backend does not fail.
pub proof fn one_failure_leaves_targets_unresolved(resolved: Seq<Resolved>, n: int)
    requires
        0 <= n < resolved.len(),
    ensures
        all_resolved(resolved, 0),
        resolved[n] matches Some(Err(_)) ==> !all_resolved(resolved, n + 1),
        resolved[n] is None ==> all_resolved(resolved, n + 1) == all_resolved(resolved, n),
        resolved[n] matches Some(Ok(_)) ==> all_resolved(resolved, n + 1) == all_resolved(
            resolved,
            n,
        ),
{
}

/// What is said of an answer from upstream can be said for every status of three digits.
pub proof fn every_status_can_be_told(e: Error, c: ClientError)
    ensures
        e is UpstreamError ==> (e.wf() <==> 100 <= e->UpstreamError_0.status <= 999),
        !(e is UpstreamError) ==> e.wf(),
        c is Status ==> (c.wf() <==> 100 <= c->Status_0.status <= 999),
        c is General ==> c.wf(),
        c matches ClientError::Proxy(ProxyError::MCP(m)) && m == e ==> (c.wf() <==> e.wf()),
{
}

} // verus!
