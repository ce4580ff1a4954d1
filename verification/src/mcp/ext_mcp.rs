//! MCP requests that pass through an external processor.

use std::sync::Arc;

use vstd::prelude::*;

use crate::ext_proc::{
    evaluated_metadata, evaluates_metadata, metadata_of, Evaluation, FailureMode,
    GrpcReferenceChannel, Metadata, MetadataExpressions,
};
use crate::json::Json;
use crate::mcp::RequestId;
use crate::proxy::ProxyError;
use crate::text::{join2, Text};
use crate::types::agent::SimpleBackendReference;

verus! {

/// Processing of MCP requests by an external service.
#[derive(Debug)]
pub struct ExtMcp {
    pub target: Arc<SimpleBackendReference>,
    pub failure_mode: FailureMode,
    /// Metadata that is sent along, by namespace.
    pub metadata_context: Option<Arc<MetadataExpressions>>,
}

/// A request of a client.
#[derive(Debug)]
pub struct JsonRpcRequest {
    pub jsonrpc: String,
    pub id: RequestId,
    pub request: Arc<Json>,
}

/// A request as the processor is told of it.
#[derive(Debug)]
pub struct McpRequest {
    pub service_name: String,
    pub mcp_request: Arc<Json>,
    pub metadata_context: Option<Arc<Metadata>>,
}

/// What turning a request into a structure came to.
#[derive(Debug)]
pub enum Encoded {
    /// The request has no JSON form.
    NotJson(String),
    /// The JSON form is not a structure.
    NotStruct(String),
    Struct(Arc<Json>),
}

/// What turning a structure back into a request came to.
#[derive(Debug)]
pub enum Decoded {
    /// The structure has no JSON form.
    NotJson(String),
    /// The JSON form is not that of a request.
    NotRequest(String),
    Request(Arc<Json>),
}

/// What the processor answers.
#[derive(Debug)]
pub enum MutatedResult {
    /// The request to go on with.
    McpRequest(Decoded),
    /// The request is not allowed: the kind and the name of the resource that it asks for.
    Error { resource: String, name: String },
}

/// An answer of the processor.
#[derive(Debug)]
pub struct MutatedMcpRequest {
    pub result: Option<MutatedResult>,
}

/// Why a request does not go on.
#[derive(Debug)]
pub enum UpstreamError {
    /// The processor cannot be told of it. Holds what is said of it.
    InvalidRequest(String),
    Authorization { resource_type: String, resource_name: String },
    ExternalMcpProcessFailed,
}

/// What is said of a request that the processor cannot be told of, given what is said of the failed
/// conversion. A failed conversion is worded as in [`ProxyError::text`].
pub open spec fn invalid_request(reason: Text) -> Text {
    "Failed to convert JSON-RPC to protobuf: "@ + ("processing failed: "@ + reason)
}

impl ExtMcp {
    /// The connection to the processor. It has no policies of its own.
    pub fn channel(&self) -> (r: GrpcReferenceChannel)
        ensures
            r.target == self.target,
            r.policies@.len() == 0,
    {
        GrpcReferenceChannel { target: self.target.clone(), policies: Arc::new(Vec::new()) }
    }

    /// The request that the processor wants to go on with. An answer that holds none is an error.
    pub fn protobuf_to_json_rpc(mutated_request: MutatedMcpRequest) -> (r: Result<
        Arc<Json>,
        ProxyError,
    >)
        ensures
            match mutated_request.result {
                Some(MutatedResult::McpRequest(Decoded::Request(request))) => r == Ok::<
                    Arc<Json>,
                    ProxyError,
                >(request),
                Some(MutatedResult::McpRequest(Decoded::NotJson(e))) => r matches Err(
                    ProxyError::Processing(m),
                ) && m@ == "Failed to convert protobuf Struct to JSON: "@ + e@,
                Some(MutatedResult::McpRequest(Decoded::NotRequest(e))) => r matches Err(
                    ProxyError::Processing(m),
                ) && m@ == "Failed to deserialize JSON to ClientRequest: "@ + e@,
                Some(MutatedResult::Error { .. }) => r matches Err(ProxyError::Processing(m)) && m@
                    == "AuthorizationError should never be received in protobuf_to_json_rpc"@,
                None => r matches Err(ProxyError::Processing(m)) && m@
                    == "Protobuf MutatedMcpRequest result should have been set"@,
            },
    {
        match mutated_request.result {
            Some(MutatedResult::McpRequest(Decoded::Request(request))) => Ok(request),
            Some(MutatedResult::McpRequest(Decoded::NotJson(e))) => Err(
                ProxyError::Processing(
                    join2("Failed to convert protobuf Struct to JSON: ", e.as_str()),
                ),
            ),
            Some(MutatedResult::McpRequest(Decoded::NotRequest(e))) => Err(
                ProxyError::Processing(
                    join2("Failed to deserialize JSON to ClientRequest: ", e.as_str()),
                ),
            ),
            Some(MutatedResult::Error { .. }) => Err(
                ProxyError::Processing(
                    "AuthorizationError should never be received in protobuf_to_json_rpc".to_owned(),
                ),
            ),
            None => Err(
                ProxyError::Processing(
                    "Protobuf MutatedMcpRequest result should have been set".to_owned(),
                ),
            ),
        }
    }

    /// What the processor is told of a request, given what turning it into a structure came to and
    /// what the expressions of the metadata came to.
    pub fn json_rpc_to_protobuf(
        &self,
        service_name: &str,
        encoded: Encoded,
        outcomes: &Vec<Vec<Evaluation>>,
    ) -> (r: Result<McpRequest, ProxyError>)
        requires
            evaluates_metadata(self.metadata_context, outcomes@),
        ensures
            match encoded {
                Encoded::Struct(request) => {
                    &&& r matches Ok(made)
                    &&& made.service_name@ == service_name@
                    &&& made.mcp_request == request
                    &&& metadata_of(made.metadata_context, self.metadata_context, outcomes@)
                },
                Encoded::NotJson(e) => r matches Err(ProxyError::Processing(m)) && m@
                    == "Failed to serialize ClientRequest to JSON: "@ + e@,
                Encoded::NotStruct(e) => r matches Err(ProxyError::Processing(m)) && m@
                    == "Failed to convert JSON to protobuf Struct: "@ + e@,
            },
    {
        let request = match encoded {
            Encoded::Struct(request) => request,
            Encoded::NotJson(e) => {
                return Err(
                    ProxyError::Processing(
                        join2("Failed to serialize ClientRequest to JSON: ", e.as_str()),
                    ),
                );
            },
            Encoded::NotStruct(e) => {
                return Err(
                    ProxyError::Processing(
                        join2("Failed to convert JSON to protobuf Struct: ", e.as_str()),
                    ),
                );
            },
        };
        Ok(
            McpRequest {
                service_name: service_name.to_owned(),
                mcp_request: request,
                metadata_context: evaluated_metadata(&self.metadata_context, outcomes),
            },
        )
    }

    /// What the processor is told of a request. A request that it cannot be told of is invalid.
    pub fn request_message(
        &self,
        service_name: &str,
        encoded: Encoded,
        outcomes: &Vec<Vec<Evaluation>>,
    ) -> (r: Result<McpRequest, UpstreamError>)
        requires
            evaluates_metadata(self.metadata_context, outcomes@),
        ensures
            match encoded {
                Encoded::Struct(request) => {
                    &&& r matches Ok(made)
                    &&& made.service_name@ == service_name@
                    &&& made.mcp_request == request
                    &&& metadata_of(made.metadata_context, self.metadata_context, outcomes@)
                },
                Encoded::NotJson(e) => r matches Err(UpstreamError::InvalidRequest(m)) && m@
                    == invalid_request("Failed to serialize ClientRequest to JSON: "@ + e@),
                Encoded::NotStruct(e) => r matches Err(UpstreamError::InvalidRequest(m)) && m@
                    == invalid_request("Failed to convert JSON to protobuf Struct: "@ + e@),
            },
    {
        match self.json_rpc_to_protobuf(service_name, encoded, outcomes) {
            Ok(made) => Ok(made),
            Err(e) => Err(
                UpstreamError::InvalidRequest(
                    join2("Failed to convert JSON-RPC to protobuf: ", e.message().as_str()),
                ),
            ),
        }
    }

    /// What goes on in place of a request, given the answer of the processor or why there is none.
    /// The processor may replace what is asked for, or refuse it; the request stays the same in
    /// its number. Where the processor fails, the failure mode decides. An answer that cannot be
    /// read is a failure whatever the mode.
    pub fn mutate_request(
        &self,
        json_rpc_request: JsonRpcRequest,
        response: Result<MutatedMcpRequest, String>,
    ) -> (r: Result<JsonRpcRequest, UpstreamError>)
        ensures
            match response {
                Ok(m) => match m.result {
                    Some(MutatedResult::Error { resource, name }) => r == Err::<
                        JsonRpcRequest,
                        UpstreamError,
                    >(
                        UpstreamError::Authorization {
                            resource_type: resource,
                            resource_name: name,
                        },
                    ),
                    Some(MutatedResult::McpRequest(Decoded::Request(request))) => r == Ok::<
                        JsonRpcRequest,
                        UpstreamError,
                    >((JsonRpcRequest { request, ..json_rpc_request })),
                    _ => r == Err::<JsonRpcRequest, UpstreamError>(
                        UpstreamError::ExternalMcpProcessFailed,
                    ),
                },
                Err(_) => r == (match self.failure_mode {
                    FailureMode::FailClosed => Err::<JsonRpcRequest, UpstreamError>(
                        UpstreamError::ExternalMcpProcessFailed,
                    ),
                    FailureMode::FailOpen => Ok(json_rpc_request),
                }),
            },
    {
        match response {
            Ok(m) => {
                let m = match m.result {
                    Some(MutatedResult::Error { resource, name }) => {
                        return Err(
                            UpstreamError::Authorization {
                                resource_type: resource,
                                resource_name: name,
                            },
                        );
                    },
                    result => MutatedMcpRequest { result },
                };
                match ExtMcp::protobuf_to_json_rpc(m) {
                    Ok(request) => Ok(
                        JsonRpcRequest {
                            jsonrpc: json_rpc_request.jsonrpc,
                            id: json_rpc_request.id,
                            request,
                        },
                    ),
                    Err(_) => Err(UpstreamError::ExternalMcpProcessFailed),
                }
            },
            Err(_) => {
                if self.failure_mode == FailureMode::FailClosed {
                    Err(UpstreamError::ExternalMcpProcessFailed)
                } else {
                    Ok(json_rpc_request)
                }
            },
        }
    }
}

} // verus!
