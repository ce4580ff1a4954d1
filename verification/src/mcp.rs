//! The Model Context Protocol.

use std::sync::Arc;

use vstd::prelude::*;

use crate::json::Json;
use crate::keyed::StringMap;
use crate::proxy::ProxyError;
use crate::text::{join2, Text};
use crate::types::policy::Nanos;

pub mod ext_mcp;
pub mod laws;
pub mod router;

verus! {

/// What happens when targets fail.
#[derive(Debug, Clone, Copy, PartialEq, Eq, Structural)]
pub enum FailureMode {
    /// Fail the entire session if any target fails to initialize or any upstream fails during a
    /// fanout.
    FailClosed,
    /// Skip failed targets and continue serving from healthy ones. If all targets fail, still
    /// return an error.
    FailOpen,
}

impl Default for FailureMode {
    fn default() -> (r: Self)
        ensures
            r == FailureMode::FailClosed,
    {
        FailureMode::FailClosed
    }
}

/// How long a session may be idle where nothing else is set: half an hour.
pub const DEFAULT_SESSION_IDLE_TTL: Nanos = 1_800_000_000_000u128;

/// A response of a server.
#[derive(Debug)]
pub struct HttpResponse {
    pub status: u16,
    pub headers: Vec<(String, Vec<u8>)>,
    pub body: Vec<u8>,
}

/// The number of a request.
#[derive(Debug)]
pub enum RequestId {
    Number(i64),
    Name(String),
}

/// A status as text: its number and what it means.
pub uninterp spec fn status_line(status: u16) -> Text;

/// The `Display` of `http::StatusCode`: the number of a status and its canonical reason, as one
/// text. It depends on the number alone. There is no status below 100 or above 999.
#[verifier::external_body]
fn status_text(status: u16) -> (r: String)
    requires
        100 <= status <= 999,
    ensures
        r@ == status_line(status),
{
    http::StatusCode::from_u16(status).unwrap().to_string()
}

/// Why a request fails.
#[derive(Debug)]
pub enum Error {
    MethodNotAllowed,
    InvalidAccept,
    InvalidAcceptGet,
    InvalidContentType,
    Deserialize(String),
    StartSession(String),
    UnknownSession,
    MissingSessionHeader,
    SessionIdRequired,
    InvalidSessionIdHeader,
    InvalidProtocolVersion,
    Stdio(String),
    UpstreamError(Arc<HttpResponse>),
    SendError(Option<RequestId>, String),
    /// The kind and the name of a resource. What is said of it does not tell that access was
    /// refused, so that the existence of the resource stays hidden.
    Authorization(RequestId, String, String),
    InvalidSessionIdQuery,
    EstablishGetStream(String),
    ForwardLegacySse(String),
    CreateSseUrl(String),
    OpenAPI(String),
    NoBackends,
}

impl Error {
    /// Whether the response that the error holds, if any, has a status.
    pub open spec fn wf(self) -> bool {
        self matches Error::UpstreamError(resp) ==> 100 <= resp.status <= 999
    }

    /// What is said of the error.
    pub open spec fn text(self) -> Text {
        match self {
            Error::MethodNotAllowed => "method not allowed; must be GET, POST, or DELETE"@,
            Error::InvalidAccept => {
                "client must accept both application/json and text/event-stream"@
            },
            Error::InvalidAcceptGet => "client must accept text/event-stream"@,
            Error::InvalidContentType => "client must send application/json"@,
            Error::Deserialize(e) => "fail to deserialize request body: "@ + e@,
            Error::StartSession(e) => "fail to create session: "@ + e@,
            Error::UnknownSession => "session not found"@,
            Error::MissingSessionHeader => {
                "session header is required for non-initialize requests"@
            },
            Error::SessionIdRequired => "session ID is required"@,
            Error::InvalidSessionIdHeader => "invalid session ID header"@,
            Error::InvalidProtocolVersion => "invalid MCP protocol version header"@,
            Error::Stdio(e) => "failed to start stdio server: "@ + e@,
            Error::UpstreamError(resp) => "upstream error: "@ + status_line(resp.status),
            Error::SendError(_, e) => "send error: "@ + e@,
            Error::Authorization(_, kind, name) => "Unknown "@ + kind@ + ": "@ + name@,
            Error::InvalidSessionIdQuery => "failed to process session_id query parameter"@,
            Error::EstablishGetStream(e) => "failed to establish get stream: "@ + e@,
            Error::ForwardLegacySse(e) => "failed to forward message to legacy SSE: "@ + e@,
            Error::CreateSseUrl(e) => "failed to create SSE url: "@ + e@,
            Error::OpenAPI(e) => "failed to parse openapi: "@ + e@,
            Error::NoBackends => "no backends configured"@,
        }
    }

    /// What is said of the error.
    pub fn message(&self) -> (r: String)
        requires
            self.wf(),
        ensures
            r@ == self.text(),
    {
        match self {
            Error::MethodNotAllowed => {
                "method not allowed; must be GET, POST, or DELETE".to_owned()
            },
            Error::InvalidAccept => {
                "client must accept both application/json and text/event-stream".to_owned()
            },
            Error::InvalidAcceptGet => "client must accept text/event-stream".to_owned(),
            Error::InvalidContentType => "client must send application/json".to_owned(),
            Error::Deserialize(e) => join2("fail to deserialize request body: ", e.as_str()),
            Error::StartSession(e) => join2("fail to create session: ", e.as_str()),
            Error::UnknownSession => "session not found".to_owned(),
            Error::MissingSessionHeader => {
                "session header is required for non-initialize requests".to_owned()
            },
            Error::SessionIdRequired => "session ID is required".to_owned(),
            Error::InvalidSessionIdHeader => "invalid session ID header".to_owned(),
            Error::InvalidProtocolVersion => "invalid MCP protocol version header".to_owned(),
            Error::Stdio(e) => join2("failed to start stdio server: ", e.as_str()),
            Error::UpstreamError(resp) => join2(
                "upstream error: ",
                status_text(resp.status).as_str(),
            ),
            Error::SendError(_, e) => join2("send error: ", e.as_str()),
            Error::Authorization(_, kind, name) => crate::text::join4(
                "Unknown ",
                kind.as_str(),
                ": ",
                name.as_str(),
            ),
            Error::InvalidSessionIdQuery => {
                "failed to process session_id query parameter".to_owned()
            },
            Error::EstablishGetStream(e) => join2("failed to establish get stream: ", e.as_str()),
            Error::ForwardLegacySse(e) => join2(
                "failed to forward message to legacy SSE: ",
                e.as_str(),
            ),
            Error::CreateSseUrl(e) => join2("failed to create SSE url: ", e.as_str()),
            Error::OpenAPI(e) => join2("failed to parse openapi: ", e.as_str()),
            Error::NoBackends => "no backends configured".to_owned(),
        }
    }
}

impl<T> From<Error> for Result<T, ProxyError> {
    fn from(val: Error) -> (r: Self) {
        Err(ProxyError::MCP(val))
    }
}

impl<T> vstd::std_specs::convert::FromSpecImpl<Error> for Result<T, ProxyError> {
    open spec fn obeys_from_spec() -> bool {
        true
    }

    open spec fn from_spec(val: Error) -> Self {
        Err(ProxyError::MCP(val))
    }
}

/// Why a request to a server fails.
#[derive(Debug)]
pub enum ClientError {
    /// The server answered with an error.
    Status(Arc<HttpResponse>),
    /// The request could not be sent. Holds what is said of it.
    General(Arc<String>),
    /// The proxy refused the request.
    Proxy(ProxyError),
}

impl ClientError {
    /// The error of a request that could not be sent.
    pub fn new(error: String) -> (r: Self)
        ensures
            r == ClientError::General(Arc::new(error)),
    {
        ClientError::General(Arc::new(error))
    }

    /// Whether the response that the error holds, if any, has a status.
    pub open spec fn wf(self) -> bool {
        match self {
            ClientError::Status(resp) => 100 <= resp.status <= 999,
            ClientError::General(_) => true,
            ClientError::Proxy(e) => e.wf(),
        }
    }

    /// What is said of the error.
    pub open spec fn text(self) -> Text {
        match self {
            ClientError::Status(resp) => "http request failed with code: "@ + status_line(
                resp.status,
            ),
            ClientError::General(e) => "http request failed: "@ + (*e)@,
            ClientError::Proxy(e) => "http request failed: "@ + e.text(),
        }
    }

    /// What is said of the error.
    pub fn message(&self) -> (r: String)
        requires
            self.wf(),
        ensures
            r@ == self.text(),
    {
        match self {
            ClientError::Status(resp) => join2(
                "http request failed with code: ",
                status_text(resp.status).as_str(),
            ),
            ClientError::General(e) => join2("http request failed: ", e.as_str()),
            ClientError::Proxy(e) => join2("http request failed: ", e.message().as_str()),
        }
    }
}

impl From<ProxyError> for ClientError {
    fn from(value: ProxyError) -> (r: Self) {
        ClientError::Proxy(value)
    }
}

impl vstd::std_specs::convert::FromSpecImpl<ProxyError> for ClientError {
    open spec fn obeys_from_spec() -> bool {
        true
    }

    open spec fn from_spec(value: ProxyError) -> Self {
        ClientError::Proxy(value)
    }
}

/// What a request is about.
#[derive(Clone, Copy, Debug, Hash, PartialEq, Eq, Structural)]
pub enum MCPOperation {
    Tool,
    Prompt,
    Resource,
    ResourceTemplates,
}

impl MCPOperation {
    /// The name of the operation in metrics and logs.
    pub open spec fn label(self) -> Text {
        match self {
            MCPOperation::Tool => "tool"@,
            MCPOperation::Prompt => "prompt"@,
            MCPOperation::Resource => "resource"@,
            MCPOperation::ResourceTemplates => "templates"@,
        }
    }

    /// The name of the operation in metrics and logs.
    pub fn to_text(&self) -> (r: &'static str)
        ensures
            r@ == self.label(),
    {
        match self {
            MCPOperation::Tool => "tool",
            MCPOperation::Prompt => "prompt",
            MCPOperation::Resource => "resource",
            MCPOperation::ResourceTemplates => "templates",
        }
    }
}

/// Operations have different names.
pub proof fn operation_labels_differ(a: MCPOperation, b: MCPOperation)
    ensures
        a.label() == b.label() <==> a == b,
{
    reveal_strlit("tool");
    reveal_strlit("prompt");
    reveal_strlit("resource");
    reveal_strlit("templates");
    assert("tool"@.len() == 4 && "prompt"@.len() == 6 && "resource"@.len() == 8
        && "templates"@.len() == 9);
}

/// A resource of a target.
#[derive(Debug)]
pub struct ResourceId {
    pub target: String,
    pub name: String,
}

impl ResourceId {
    /// The resource of the target.
    pub fn new(target: String, name: String) -> (r: Self)
        ensures
            r == (ResourceId { target, name }),
    {
        ResourceId { target, name }
    }

    /// A copy.
    pub fn copy(&self) -> (r: Self)
        ensures
            r == *self,
    {
        ResourceId { target: self.target.clone(), name: self.name.clone() }
    }
}

/// A resource that a request is about.
#[derive(Debug)]
pub enum ResourceType {
    Tool(ResourceId),
    Prompt(ResourceId),
    Resource(ResourceId),
}

/// A call of a tool.
#[derive(Debug)]
pub struct MCPTool {
    /// The target that handles the call.
    pub target: String,
    /// The name of the tool at the target.
    pub name: String,
    /// The arguments of the call.
    pub arguments: Option<Arc<StringMap<Arc<Json>>>>,
    /// What the tool returned.
    pub result: Option<Arc<Json>>,
    /// The error of the call.
    pub error: Option<Arc<Json>>,
}

/// What is known of a request.
#[derive(Debug)]
pub struct MCPInfo {
    pub method_name: Option<String>,
    pub session_id: Option<String>,
    pub tool: Option<MCPTool>,
    pub prompt: Option<ResourceId>,
    pub resource: Option<ResourceId>,
}

impl Default for MCPInfo {
    fn default() -> (r: Self)
        ensures
            r == MCPInfo::unknown(),
    {
        MCPInfo { method_name: None, session_id: None, tool: None, prompt: None, resource: None }
    }
}

impl MCPInfo {
    /// Nothing is known.
    pub open spec fn unknown() -> Self {
        MCPInfo { method_name: None, session_id: None, tool: None, prompt: None, resource: None }
    }

    /// Whether the request is about no more than one resource.
    pub open spec fn exclusive(self) -> bool {
        &&& self.tool is None || self.prompt is None
        &&& self.tool is None || self.resource is None
        &&& self.prompt is None || self.resource is None
    }

    /// A call of a tool of which nothing else is known.
    pub open spec fn call(target: String, name: String) -> MCPTool {
        MCPTool { target, name, arguments: None, result: None, error: None }
    }

    /// Whether nothing is known.
    pub fn is_empty(&self) -> (r: bool)
        ensures
            r == (*self == MCPInfo::unknown()),
    {
        self.method_name.is_none() && self.session_id.is_none() && self.tool.is_none()
            && self.prompt.is_none() && self.resource.is_none()
    }

    /// What the request is about: a tool before a prompt before a resource.
    pub fn resource_type(&self) -> (r: Option<MCPOperation>)
        ensures
            r == (if self.tool is Some {
                Some(MCPOperation::Tool)
            } else if self.prompt is Some {
                Some(MCPOperation::Prompt)
            } else if self.resource is Some {
                Some(MCPOperation::Resource)
            } else {
                None
            }),
    {
        if self.tool.is_some() {
            Some(MCPOperation::Tool)
        } else if self.prompt.is_some() {
            Some(MCPOperation::Prompt)
        } else if self.resource.is_some() {
            Some(MCPOperation::Resource)
        } else {
            None
        }
    }

    /// The target and the name of what the request is about.
    pub open spec fn subject(self) -> Option<(Text, Text)> {
        match (self.tool, self.prompt, self.resource) {
            (Some(t), _, _) => Some((t.target@, t.name@)),
            (None, Some(p), _) => Some((p.target@, p.name@)),
            (None, None, Some(p)) => Some((p.target@, p.name@)),
            (None, None, None) => None,
        }
    }

    /// The target that the request is about.
    pub fn target_name(&self) -> (r: Option<&str>)
        ensures
            match self.subject() {
                Some(s) => r is Some && r->0@ == s.0,
                None => r is None,
            },
    {
        match (&self.tool, &self.prompt, &self.resource) {
            (Some(t), _, _) => Some(t.target.as_str()),
            (None, Some(p), _) => Some(p.target.as_str()),
            (None, None, Some(p)) => Some(p.target.as_str()),
            (None, None, None) => None,
        }
    }

    /// The name of what the request is about.
    pub fn resource_name(&self) -> (r: Option<&str>)
        ensures
            match self.subject() {
                Some(s) => r is Some && r->0@ == s.1,
                None => r is None,
            },
    {
        match (&self.tool, &self.prompt, &self.resource) {
            (Some(t), _, _) => Some(t.name.as_str()),
            (None, Some(p), _) => Some(p.name.as_str()),
            (None, None, Some(p)) => Some(p.name.as_str()),
            (None, None, None) => None,
        }
    }

    /// The request is about a tool. What is known of the call is kept.
    pub fn set_tool(&mut self, target: String, name: String)
        ensures
            *final(self) == (MCPInfo {
                tool: Some(
                    match old(self).tool {
                        Some(t) => MCPTool { target, name, ..t },
                        None => MCPInfo::call(target, name),
                    },
                ),
                prompt: None,
                resource: None,
                ..*old(self)
            }),
            final(self).exclusive(),
            final(self).subject() == Some((target@, name@)),
    {
        self.prompt = None;
        self.resource = None;
        let tool = match self.tool.take() {
            Some(t) => MCPTool {
                target,
                name,
                arguments: t.arguments,
                result: t.result,
                error: t.error,
            },
            None => MCPTool { target, name, arguments: None, result: None, error: None },
        };
        self.tool = Some(tool);
    }

    /// The request is about a prompt.
    pub fn set_prompt(&mut self, target: String, name: String)
        ensures
            *final(self) == (MCPInfo {
                tool: None,
                prompt: Some(ResourceId { target, name }),
                resource: None,
                ..*old(self)
            }),
            final(self).exclusive(),
            final(self).subject() == Some((target@, name@)),
    {
        self.tool = None;
        self.resource = None;
        self.prompt = Some(ResourceId::new(target, name));
    }

    /// The request is about a resource.
    pub fn set_resource(&mut self, target: String, name: String)
        ensures
            *final(self) == (MCPInfo {
                tool: None,
                prompt: None,
                resource: Some(ResourceId { target, name }),
                ..*old(self)
            }),
            final(self).exclusive(),
            final(self).subject() == Some((target@, name@)),
    {
        self.tool = None;
        self.prompt = None;
        self.resource = Some(ResourceId::new(target, name));
    }

    /// Keeps the arguments of a call, if the request is one.
    pub fn capture_call_arguments(&mut self, arguments: Option<Arc<StringMap<Arc<Json>>>>)
        ensures
            *final(self) == (MCPInfo {
                tool: match old(self).tool {
                    Some(t) => Some(MCPTool { arguments, ..t }),
                    None => None,
                },
                ..*old(self)
            }),
    {
        match self.tool.take() {
            Some(t) => {
                self.tool = Some(
                    MCPTool {
                        target: t.target,
                        name: t.name,
                        arguments,
                        result: t.result,
                        error: t.error,
                    },
                );
            },
            None => {},
        }
    }

    /// Keeps the result of a call, if the request is one. A result without a JSON form leaves none.
    pub fn capture_call_result(&mut self, result: Option<Arc<Json>>)
        ensures
            *final(self) == (MCPInfo {
                tool: match old(self).tool {
                    Some(t) => Some(MCPTool { result, ..t }),
                    None => None,
                },
                ..*old(self)
            }),
    {
        match self.tool.take() {
            Some(t) => {
                self.tool = Some(
                    MCPTool {
                        target: t.target,
                        name: t.name,
                        arguments: t.arguments,
                        result,
                        error: t.error,
                    },
                );
            },
            None => {},
        }
    }

    /// Keeps the error of a call, if the request is one. An error without a JSON form leaves none.
    pub fn capture_call_error(&mut self, error: Option<Arc<Json>>)
        ensures
            *final(self) == (MCPInfo {
                tool: match old(self).tool {
                    Some(t) => Some(MCPTool { error, ..t }),
                    None => None,
                },
                ..*old(self)
            }),
    {
        match self.tool.take() {
            Some(t) => {
                self.tool = Some(
                    MCPTool {
                        target: t.target,
                        name: t.name,
                        arguments: t.arguments,
                        result: t.result,
                        error,
                    },
                );
            },
            None => {},
        }
    }

    /// What is known of a request from the resource that it is about.
    pub open spec fn about(value: ResourceType) -> Self {
        match value {
            ResourceType::Tool(t) => MCPInfo {
                tool: Some(MCPInfo::call(t.target, t.name)),
                ..MCPInfo::unknown()
            },
            ResourceType::Prompt(p) => MCPInfo { prompt: Some(p), ..MCPInfo::unknown() },
            ResourceType::Resource(p) => MCPInfo { resource: Some(p), ..MCPInfo::unknown() },
        }
    }
}

impl<'a> From<&'a ResourceType> for MCPInfo {
    fn from(value: &'a ResourceType) -> (r: Self) {
        let mut info = MCPInfo::default();
        match value {
            ResourceType::Tool(t) => {
                info.set_tool(t.target.clone(), t.name.clone());
            },
            ResourceType::Prompt(p) => {
                info.prompt = Some(p.copy());
            },
            ResourceType::Resource(p) => {
                info.resource = Some(p.copy());
            },
        }
        info
    }
}

impl<'a> vstd::std_specs::convert::FromSpecImpl<&'a ResourceType> for MCPInfo {
    open spec fn obeys_from_spec() -> bool {
        true
    }

    open spec fn from_spec(value: &'a ResourceType) -> Self {
        MCPInfo::about(*value)
    }
}

/// What a request is about follows from the resource that it was made from, and it is about
/// nothing else.
pub proof fn request_is_about_its_resource(value: ResourceType)
    ensures
        MCPInfo::about(value).exclusive(),
        MCPInfo::about(value).subject() == Some(
            match value {
                ResourceType::Tool(p) => (p.target@, p.name@),
                ResourceType::Prompt(p) => (p.target@, p.name@),
                ResourceType::Resource(p) => (p.target@, p.name@),
            },
        ),
{
}

} // verus!
