//! MCP requests: what they are about, where they go, and what an external server makes of them.

use std::sync::Arc;
use std::time::Duration;

use agentgateway::ext_proc;
use agentgateway::json::Json;
use agentgateway::keyed::StringMap;
use agentgateway::mcp::ext_mcp::{
    Decoded, Encoded, ExtMcp, JsonRpcRequest, MutatedMcpRequest, MutatedResult, UpstreamError,
};
use agentgateway::mcp::router::{App, McpBackendGroup, Serve};
use agentgateway::mcp::{
    ClientError, Error, FailureMode, HttpResponse, MCPInfo, MCPOperation, RequestId, ResourceId,
    ResourceType, DEFAULT_SESSION_IDLE_TTL,
};
use agentgateway::proxy::ProxyError;
use agentgateway::store::binds::Store;
use agentgateway::store::policies::BackendPolicies;
use agentgateway::store::updater::StoreUpdater;
use agentgateway::types::agent::{
    BackendTarget, McpBackend, McpTarget, McpTargetSpec, PolicyTarget, ResourceName,
    SimpleBackend, SimpleBackendReference, SimpleBackendWithPolicies, Target, TargetedPolicy,
};
use agentgateway::types::policy::{
    Encoder, HeaderModifier, McpAuthentication, PolicyBody,
};
use agentgateway::types::traffic::{BackendTrafficPolicy, PolicyType};

fn s(text: &str) -> String {
    text.to_string()
}

fn response(status: u16) -> Arc<HttpResponse> {
    Arc::new(HttpResponse {
        status,
        headers: vec![],
        body: vec![],
    })
}

fn body() -> Arc<PolicyBody> {
    Arc::new(PolicyBody {
        document: Json::Null,
        expressions: vec![],
    })
}

fn app(store: Store) -> App {
    App::new(
        StoreUpdater::new(store),
        Encoder {
            secret: s("secret"),
        },
    )
}

fn mcp_target(name: &str) -> Arc<McpTarget> {
    Arc::new(McpTarget {
        name: s(name),
        spec: Arc::new(McpTargetSpec::Mcp {
            backend: SimpleBackendReference::Backend(format!("/{name}")),
            path: s("/mcp"),
        }),
    })
}

fn mcp_backend(targets: Vec<Arc<McpTarget>>) -> McpBackend {
    McpBackend {
        targets,
        stateful: true,
        always_use_prefix: false,
        failure_mode: FailureMode::FailClosed,
        session_idle_ttl: Duration::from_millis(60_500).as_nanos(),
    }
}

fn resolved(name: &str) -> SimpleBackendWithPolicies {
    SimpleBackendWithPolicies {
        backend: SimpleBackend::Opaque(
            ResourceName::new(s(name), s("")),
            Target {
                host: s("example.com"),
                port: 80,
            },
        ),
        inline_policies: vec![],
    }
}

fn authenticated() -> BackendPolicies {
    let mut policies = BackendPolicies::empty();
    policies.mcp_authentication = Some(Arc::new(McpAuthentication {
        jwt_validator: body(),
        settings: body(),
    }));
    policies
}

// ------------------------------------------------------------------------------------------
// Errors
// ------------------------------------------------------------------------------------------

#[test]
fn errors_have_their_texts() {
    let texts = vec![
        (
            Error::MethodNotAllowed,
            "method not allowed; must be GET, POST, or DELETE",
        ),
        (
            Error::InvalidAccept,
            "client must accept both application/json and text/event-stream",
        ),
        (
            Error::InvalidAcceptGet,
            "client must accept text/event-stream",
        ),
        (
            Error::InvalidContentType,
            "client must send application/json",
        ),
        (
            Error::Deserialize(s("x")),
            "fail to deserialize request body: x",
        ),
        (Error::StartSession(s("x")), "fail to create session: x"),
        (Error::UnknownSession, "session not found"),
        (
            Error::MissingSessionHeader,
            "session header is required for non-initialize requests",
        ),
        (Error::SessionIdRequired, "session ID is required"),
        (Error::InvalidSessionIdHeader, "invalid session ID header"),
        (
            Error::InvalidProtocolVersion,
            "invalid MCP protocol version header",
        ),
        (Error::Stdio(s("x")), "failed to start stdio server: x"),
        (
            Error::UpstreamError(response(404)),
            "upstream error: 404 Not Found",
        ),
        (
            Error::SendError(Some(RequestId::Number(1)), s("x")),
            "send error: x",
        ),
        (
            Error::Authorization(RequestId::Name(s("1")), s("tool"), s("echo")),
            "Unknown tool: echo",
        ),
        (
            Error::InvalidSessionIdQuery,
            "failed to process session_id query parameter",
        ),
        (
            Error::EstablishGetStream(s("x")),
            "failed to establish get stream: x",
        ),
        (
            Error::ForwardLegacySse(s("x")),
            "failed to forward message to legacy SSE: x",
        ),
        (Error::CreateSseUrl(s("x")), "failed to create SSE url: x"),
        (Error::OpenAPI(s("x")), "failed to parse openapi: x"),
        (Error::NoBackends, "no backends configured"),
    ];
    for (error, text) in texts {
        assert_eq!(error.message(), text);
    }
}

#[test]
fn an_unknown_status_is_named_so() {
    assert_eq!(
        ClientError::Status(response(503)).message(),
        "http request failed with code: 503 Service Unavailable"
    );
    assert_eq!(
        ClientError::Status(response(799)).message(),
        "http request failed with code: 799 <unknown status code>"
    );
    assert_eq!(
        ClientError::new(s("closed")).message(),
        "http request failed: closed"
    );
    assert_eq!(
        ClientError::from(ProxyError::Processing(s("no route"))).message(),
        "http request failed: processing failed: no route"
    );
    assert!(matches!(
        ClientError::from(ProxyError::MCP(Error::NoBackends)),
        ClientError::Proxy(ProxyError::MCP(Error::NoBackends))
    ));
}

#[test]
fn errors_become_results() {
    let r: Result<(), ProxyError> = Error::NoBackends.into();
    assert!(matches!(r, Err(ProxyError::MCP(Error::NoBackends))));
}

// ------------------------------------------------------------------------------------------
// What a request is about
// ------------------------------------------------------------------------------------------

#[test]
fn operations_have_labels() {
    assert_eq!(MCPOperation::Tool.to_text(), "tool");
    assert_eq!(MCPOperation::Prompt.to_text(), "prompt");
    assert_eq!(MCPOperation::Resource.to_text(), "resource");
    assert_eq!(MCPOperation::ResourceTemplates.to_text(), "templates");
}

#[test]
fn a_request_is_about_one_thing() {
    let mut info = MCPInfo::default();
    assert!(info.is_empty());
    assert_eq!(info.resource_type(), None);
    assert_eq!(info.target_name(), None);

    info.set_tool(s("target"), s("echo"));
    assert_eq!(info.resource_type(), Some(MCPOperation::Tool));
    assert_eq!(info.target_name(), Some("target"));
    assert_eq!(info.resource_name(), Some("echo"));

    info.set_prompt(s("target"), s("greet"));
    assert!(info.tool.is_none());
    assert_eq!(info.resource_type(), Some(MCPOperation::Prompt));
    assert_eq!(info.resource_name(), Some("greet"));

    info.set_resource(s("target"), s("file"));
    assert!(info.prompt.is_none());
    assert_eq!(info.resource_type(), Some(MCPOperation::Resource));
    assert!(!info.is_empty());
}

#[test]
fn calls_are_captured_for_tools_only() {
    let mut info = MCPInfo::default();
    info.capture_call_result(Some(Arc::new(Json::Bool(true))));
    assert!(info.is_empty());

    info.set_tool(s("target"), s("echo"));
    info.capture_call_arguments(Some(Arc::new(StringMap::new())));
    info.capture_call_result(Some(Arc::new(Json::Bool(true))));
    info.capture_call_error(Some(Arc::new(Json::Null)));
    let tool = info.tool.as_ref().expect("a tool");
    assert!(tool.arguments.is_some());
    assert!(tool.result.is_some());
    assert!(tool.error.is_some());

    info.set_tool(s("target"), s("other"));
    let tool = info.tool.as_ref().expect("a tool");
    assert_eq!(tool.name, "other");
    assert!(tool.arguments.is_some());
}

#[test]
fn a_resource_says_what_a_request_is_about() {
    let tool = ResourceType::Tool(ResourceId::new(s("t"), s("n")));
    let info = MCPInfo::from(&tool);
    assert_eq!(info.resource_type(), Some(MCPOperation::Tool));
    assert_eq!(info.target_name(), Some("t"));
    let prompt = ResourceType::Prompt(ResourceId::new(s("t"), s("n")));
    assert_eq!(
        MCPInfo::from(&prompt).resource_type(),
        Some(MCPOperation::Prompt)
    );
    let resource = ResourceType::Resource(ResourceId::new(s("t"), s("n")));
    assert_eq!(
        MCPInfo::from(&resource).resource_type(),
        Some(MCPOperation::Resource)
    );
}

// ------------------------------------------------------------------------------------------
// Routing
// ------------------------------------------------------------------------------------------

#[test]
fn well_known_paths_of_a_single_open_target_are_bypassed() {
    let app = app(Store::default());
    let open = BackendPolicies::empty();
    let one = mcp_backend(vec![mcp_target("a")]);
    let path = "/.well-known/oauth-protected-resource/mcp";
    assert_eq!(
        app.should_passthrough(&open, &one, path),
        Some(SimpleBackendReference::Backend(s("/a")))
    );
    assert_eq!(app.should_passthrough(&open, &one, "/mcp"), None);
    assert_eq!(app.should_passthrough(&authenticated(), &one, path), None);
    let two = mcp_backend(vec![mcp_target("a"), mcp_target("b")]);
    assert_eq!(app.should_passthrough(&open, &two, path), None);
    let local = mcp_backend(vec![Arc::new(McpTarget {
        name: s("a"),
        spec: Arc::new(McpTargetSpec::Stdio {
            cmd: s("run"),
            args: vec![],
            env: vec![],
            clear_env: false,
        }),
    })]);
    assert_eq!(app.should_passthrough(&open, &local, path), None);
}

fn sets(value: &str) -> BackendTrafficPolicy {
    BackendTrafficPolicy::RequestHeaderModifier(Arc::new(HeaderModifier {
        add: vec![],
        set: vec![(s("x-foo"), s(value))],
        remove: vec![],
    }))
}

#[test]
fn targets_of_a_group_have_their_own_policies() {
    let mut store = Store::default();
    store.insert_policy(TargetedPolicy {
        key: s("section"),
        name: None,
        target: PolicyTarget::Backend(BackendTarget::Backend {
            name: s("group"),
            namespace: s("ns"),
            section: Some(s("a")),
        }),
        policy: PolicyType::Backend(sets("section")),
    });
    let app = app(store);
    let backend = mcp_backend(vec![mcp_target("a"), mcp_target("b")]);
    let group = app
        .backend_group(
            &ResourceName::new(s("group"), s("ns")),
            &backend,
            &BackendPolicies::empty(),
            vec![Some(Ok(resolved("a"))), Some(Ok(resolved("b")))],
        )
        .expect("a group");
    assert_eq!(group.targets.len(), 2);
    assert!(group.stateful);
    assert_eq!(group.session_idle_ttl, 60_500_000_000);
    let a = &group.targets[0].backend_policies.request_header_modifier;
    assert_eq!(a.as_ref().map(|m| m.set[0].1.as_str()), Some("section"));
    let b = &group.targets[1].backend_policies.request_header_modifier;
    assert!(b.is_none());
}

#[test]
fn a_group_fails_with_its_first_unknown_backend() {
    let app = app(Store::default());
    let backend = mcp_backend(vec![mcp_target("a"), mcp_target("b")]);
    let r = app.backend_group(
        &ResourceName::new(s("group"), s("ns")),
        &backend,
        &BackendPolicies::empty(),
        vec![
            Some(Ok(resolved("a"))),
            Some(Err(ProxyError::Processing(s("gone")))),
        ],
    );
    assert!(matches!(r, Err(ProxyError::Processing(m)) if m == "gone"));
}

#[test]
fn authentication_comes_before_serving() {
    let app = app(Store::default());
    let policies = authenticated();
    assert!(App::authentication(&policies).is_some());
    let refused = app.serve(
        McpBackendGroup::default(),
        &policies,
        Err(ProxyError::Processing(s("no"))),
        "/mcp",
    );
    assert!(matches!(refused, Serve::Fail(ProxyError::Processing(m)) if m == "no"));
    let answered = app.serve(
        McpBackendGroup::default(),
        &policies,
        Ok(Some(response(401))),
        "/mcp",
    );
    assert!(matches!(answered, Serve::Respond(r) if r.status == 401));
}

#[test]
fn the_path_chooses_the_transport() {
    let app = app(Store::default());
    let policies = BackendPolicies::empty();
    assert!(matches!(
        app.serve(McpBackendGroup::default(), &policies, Ok(None), "/sse"),
        Serve::LegacySse { .. }
    ));
    match app.serve(McpBackendGroup::default(), &policies, Ok(None), "/mcp") {
        Serve::Streamable {
            stateful_mode,
            inputs,
        } => {
            assert!(stateful_mode);
            assert!(inputs.policies.rule_sets.is_empty());
            assert_eq!(inputs.backend.session_idle_ttl, DEFAULT_SESSION_IDLE_TTL);
        }
        other => panic!("unexpected outcome {other:?}"),
    }
    assert_eq!(
        DEFAULT_SESSION_IDLE_TTL,
        Duration::from_secs(30 * 60).as_nanos()
    );
    assert!(matches!(FailureMode::default(), FailureMode::FailClosed));
}

// ------------------------------------------------------------------------------------------
// External servers
// ------------------------------------------------------------------------------------------

fn ext_mcp(failure_mode: ext_proc::FailureMode) -> ExtMcp {
    ExtMcp {
        target: Arc::new(SimpleBackendReference::Backend(s("/ext"))),
        failure_mode,
        metadata_context: None,
    }
}

fn rpc() -> JsonRpcRequest {
    JsonRpcRequest {
        jsonrpc: s("2.0"),
        id: RequestId::Number(7),
        request: Arc::new(Json::Text(s("before"))),
    }
}

#[test]
fn a_mutated_request_keeps_its_number() {
    let changed = MutatedMcpRequest {
        result: Some(MutatedResult::McpRequest(Decoded::Request(Arc::new(
            Json::Text(s("after")),
        )))),
    };
    let r = ext_mcp(ext_proc::FailureMode::FailClosed)
        .mutate_request(rpc(), Ok(changed))
        .expect("a request");
    assert!(matches!(r.id, RequestId::Number(7)));
    assert!(matches!(&*r.request, Json::Text(t) if t == "after"));
}

#[test]
fn a_refused_request_names_the_resource() {
    let refused = MutatedMcpRequest {
        result: Some(MutatedResult::Error {
            resource: s("tool"),
            name: s("echo"),
        }),
    };
    match ext_mcp(ext_proc::FailureMode::FailOpen).mutate_request(rpc(), Ok(refused)) {
        Err(UpstreamError::Authorization {
            resource_type,
            resource_name,
        }) => {
            assert_eq!(resource_type, "tool");
            assert_eq!(resource_name, "echo");
        }
        other => panic!("unexpected result {other:?}"),
    }
}

#[test]
fn a_server_that_cannot_be_reached_fails_as_it_is_told() {
    let r = ext_mcp(ext_proc::FailureMode::FailOpen).mutate_request(rpc(), Err(s("down")));
    assert!(matches!(&*r.expect("a request").request, Json::Text(t) if t == "before"));
    let r = ext_mcp(ext_proc::FailureMode::FailClosed).mutate_request(rpc(), Err(s("down")));
    assert!(matches!(r, Err(UpstreamError::ExternalMcpProcessFailed)));
    let r = ext_mcp(ext_proc::FailureMode::FailOpen)
        .mutate_request(rpc(), Ok(MutatedMcpRequest { result: None }));
    assert!(matches!(r, Err(UpstreamError::ExternalMcpProcessFailed)));
}

#[test]
fn proxy_errors_tell_what_failed() {
    assert_eq!(
        ProxyError::Processing(s("no")).message(),
        "processing failed: no"
    );
    assert_eq!(
        ProxyError::ExtProc(ext_proc::Error::RequestSend).message(),
        "ext_proc failed: failed to send request"
    );
    assert_eq!(
        ProxyError::MCP(Error::UnknownSession).message(),
        "mcp: session not found"
    );
}

#[test]
fn requests_are_encoded_and_decoded() {
    let e = ext_mcp(ext_proc::FailureMode::FailClosed);
    assert!(matches!(&*e.channel().target, SimpleBackendReference::Backend(k) if k == "/ext"));
    assert!(e.channel().policies.is_empty());
    let made = e
        .json_rpc_to_protobuf("svc", Encoded::Struct(Arc::new(Json::Null)), &vec![])
        .expect("a request");
    assert_eq!(made.service_name, "svc");
    match e.json_rpc_to_protobuf("svc", Encoded::NotJson(s("x")), &vec![]) {
        Err(ProxyError::Processing(m)) => {
            assert_eq!(m, "Failed to serialize ClientRequest to JSON: x")
        }
        other => panic!("unexpected result {other:?}"),
    }
    match e.request_message("svc", Encoded::NotStruct(s("x")), &vec![]) {
        Err(UpstreamError::InvalidRequest(m)) => assert_eq!(
            m,
            "Failed to convert JSON-RPC to protobuf: processing failed: \
             Failed to convert JSON to protobuf Struct: x"
        ),
        other => panic!("unexpected result {other:?}"),
    }
    let texts = vec![
        (
            Some(MutatedResult::McpRequest(Decoded::NotJson(s("x")))),
            "Failed to convert protobuf Struct to JSON: x",
        ),
        (
            Some(MutatedResult::McpRequest(Decoded::NotRequest(s("x")))),
            "Failed to deserialize JSON to ClientRequest: x",
        ),
        (
            Some(MutatedResult::Error {
                resource: s("a"),
                name: s("b"),
            }),
            "AuthorizationError should never be received in protobuf_to_json_rpc",
        ),
        (
            None,
            "Protobuf MutatedMcpRequest result should have been set",
        ),
    ];
    for (result, text) in texts {
        match ExtMcp::protobuf_to_json_rpc(MutatedMcpRequest { result }) {
            Err(ProxyError::Processing(m)) => assert_eq!(m, text),
            other => panic!("unexpected result {other:?}"),
        }
    }
}
