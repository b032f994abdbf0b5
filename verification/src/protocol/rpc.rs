//! JSON-RPC 2.0 envelopes of the daemon's control socket, and the error
//! envelope carried in an error's `data`.
//!
//! Parameters, results and ids are JSON values that this crate carries
//! without looking inside.

use vstd::prelude::*;

verus! {

/// Invalid JSON was received.
pub const PARSE_ERROR: i32 = -32700;
/// The JSON sent is not a valid request object.
pub const INVALID_REQUEST: i32 = -32600;
/// The method does not exist.
pub const METHOD_NOT_FOUND: i32 = -32601;
/// Invalid method parameters.
pub const INVALID_PARAMS: i32 = -32602;
/// Internal error.
pub const INTERNAL_ERROR: i32 = -32603;
/// First code of the application-defined range.
pub const APP_ERROR_BASE: i32 = -32000;

/// An arbitrary JSON value.
#[verifier::external_type_specification]
#[verifier::external_body]
pub struct ExJsonValue(serde_json::Value);

/// A JSON object.
#[verifier::external_type_specification]
#[verifier::external_body]
#[verifier::reject_recursive_types(K)]
#[verifier::reject_recursive_types(V)]
pub struct ExJsonMap<K, V>(serde_json::Map<K, V>);

/// The protocol version every envelope carries.
pub open spec fn version_2_0() -> Seq<char> {
    "2.0"@
}

/// A request.
#[derive(Debug)]
pub struct JsonRpcRequest {
    pub jsonrpc: String,
    pub id: Option<serde_json::Value>,
    pub method: String,
    pub params: serde_json::Value,
}

impl JsonRpcRequest {
    /// A version 2.0 request with the given id, method and parameters.
    pub fn new(id: serde_json::Value, method: String, params: serde_json::Value) -> (r: Self)
        ensures
            r.jsonrpc@ == version_2_0(),
            r.id == Some(id),
            r.method == method,
            r.params == params,
    {
        JsonRpcRequest { jsonrpc: String::from_str("2.0"), id: Some(id), method, params }
    }
}

/// A successful response.
#[derive(Debug)]
pub struct JsonRpcOk {
    pub jsonrpc: String,
    pub id: String,
    pub result: serde_json::Value,
}

/// The error object of an error response.
#[derive(Debug)]
pub struct JsonRpcError {
    pub code: i32,
    pub message: String,
    pub data: Option<serde_json::Value>,
}

/// An error response.
#[derive(Debug)]
pub struct JsonRpcErrorResponse {
    pub jsonrpc: String,
    pub id: Option<String>,
    pub error: JsonRpcError,
}

/// A response: success or error (untagged on the wire).
#[derive(Debug)]
pub enum JsonRpcResponse {
    Success(JsonRpcOk),
    Failure(JsonRpcErrorResponse),
}

impl JsonRpcResponse {
    /// A success response for `id`.
    pub fn ok(id: String, result: serde_json::Value) -> (r: Self)
        ensures
            r matches JsonRpcResponse::Success(o) && o.jsonrpc@ == version_2_0() && o.id == id && o.result
                == result,
    {
        JsonRpcResponse::Success(JsonRpcOk { jsonrpc: String::from_str("2.0"), id, result })
    }

    /// An error response for `id` (absent when the request id is unknown),
    /// without `data`.
    pub fn error(id: Option<String>, code: i32, message: String) -> (r: Self)
        ensures
            r matches JsonRpcResponse::Failure(e) && e.jsonrpc@ == version_2_0() && e.id == id && e.error.code
                == code && e.error.message == message && e.error.data is None,
    {
        JsonRpcResponse::Failure(
            JsonRpcErrorResponse {
                jsonrpc: String::from_str("2.0"),
                id,
                error: JsonRpcError { code, message, data: None },
            },
        )
    }
}

/// A notification (no id, no response).
#[derive(Debug)]
pub struct JsonRpcNotification {
    pub jsonrpc: String,
    pub method: String,
    pub params: serde_json::Value,
}

impl JsonRpcNotification {
    /// A version 2.0 notification.
    pub fn new(method: String, params: serde_json::Value) -> (r: Self)
        ensures
            r.jsonrpc@ == version_2_0(),
            r.method == method,
            r.params == params,
    {
        JsonRpcNotification { jsonrpc: String::from_str("2.0"), method, params }
    }
}

/// The structured error carried in an RPC error's `data`.
#[derive(Debug)]
pub struct ErrorEnvelope {
    pub kind: String,
    pub message: String,
    pub retryable: bool,
    pub request_id: Option<String>,
    pub context: serde_json::Map<String, serde_json::Value>,
}

/// An RPC error with an optional structured envelope.
#[derive(Debug)]
pub struct RpcError {
    pub code: i32,
    pub message: String,
    pub data: Option<ErrorEnvelope>,
}

} // verus!
