//! The adapter's internal error type and its mapping to the port-level error.

use vstd::prelude::*;

verus! {

/// Internal rich error carrying HTTP status details and request ids.
#[derive(Debug)]
pub enum GraphInternalError {
    /// 401 after one refresh attempt.
    Unauthorized { request_id: String },
    /// 401 `invalid_grant`: the user must re-authenticate.
    ReAuthRequired { request_id: String },
    /// 403.
    Forbidden { request_id: String },
    /// 404.
    NotFound { request_id: String },
    /// 409 `nameAlreadyExists`.
    NameConflict { request_id: String },
    /// 410 `resyncRequired`.
    ResyncRequired { request_id: String },
    /// 412 `preconditionFailed`, with the server's `ETag`.
    Stale { server_etag: String, request_id: String },
    /// 416 invalid range (upload session resume).
    InvalidRange { request_id: String },
    /// 429 or 503 with `Retry-After` seconds.
    Throttled { retry_after_s: u64, request_id: String },
    /// 5xx without `Retry-After`, or an unexpected status.
    Transient { detail: String, request_id: String },
    /// Network / DNS / TLS failure.
    Network { detail: String },
    /// Response body did not match the expected shape.
    Decode { detail: String },
    /// Downloaded content hash did not match the server-supplied hash.
    HashMismatch,
    /// File exceeds the maximum size.
    TooLarge,
    /// The OAuth redirect listener timed out.
    Timeout,
    /// An argument was invalid.
    InvalidArgument { detail: String },
}

/// Mathematical model of [`GraphInternalError`]: strings as character sequences.
pub enum GraphInternalErrorView {
    Unauthorized { request_id: Seq<char> },
    ReAuthRequired { request_id: Seq<char> },
    Forbidden { request_id: Seq<char> },
    NotFound { request_id: Seq<char> },
    NameConflict { request_id: Seq<char> },
    ResyncRequired { request_id: Seq<char> },
    Stale { server_etag: Seq<char>, request_id: Seq<char> },
    InvalidRange { request_id: Seq<char> },
    Throttled { retry_after_s: u64, request_id: Seq<char> },
    Transient { detail: Seq<char>, request_id: Seq<char> },
    Network { detail: Seq<char> },
    Decode { detail: Seq<char> },
    HashMismatch,
    TooLarge,
    Timeout,
    InvalidArgument { detail: Seq<char> },
}

impl View for GraphInternalError {
    type V = GraphInternalErrorView;

    open spec fn view(&self) -> GraphInternalErrorView {
        match self {
            GraphInternalError::Unauthorized { request_id } => GraphInternalErrorView::Unauthorized {
                request_id: request_id@,
            },
            GraphInternalError::ReAuthRequired { request_id } =>
                GraphInternalErrorView::ReAuthRequired { request_id: request_id@ },
            GraphInternalError::Forbidden { request_id } => GraphInternalErrorView::Forbidden {
                request_id: request_id@,
            },
            GraphInternalError::NotFound { request_id } => GraphInternalErrorView::NotFound {
                request_id: request_id@,
            },
            GraphInternalError::NameConflict { request_id } =>
                GraphInternalErrorView::NameConflict { request_id: request_id@ },
            GraphInternalError::ResyncRequired { request_id } =>
                GraphInternalErrorView::ResyncRequired { request_id: request_id@ },
            GraphInternalError::Stale { server_etag, request_id } => GraphInternalErrorView::Stale {
                server_etag: server_etag@,
                request_id: request_id@,
            },
            GraphInternalError::InvalidRange { request_id } =>
                GraphInternalErrorView::InvalidRange { request_id: request_id@ },
            GraphInternalError::Throttled { retry_after_s, request_id } =>
                GraphInternalErrorView::Throttled {
                retry_after_s: *retry_after_s,
                request_id: request_id@,
            },
            GraphInternalError::Transient { detail, request_id } =>
                GraphInternalErrorView::Transient { detail: detail@, request_id: request_id@ },
            GraphInternalError::Network { detail } => GraphInternalErrorView::Network {
                detail: detail@,
            },
            GraphInternalError::Decode { detail } => GraphInternalErrorView::Decode {
                detail: detail@,
            },
            GraphInternalError::HashMismatch => GraphInternalErrorView::HashMismatch,
            GraphInternalError::TooLarge => GraphInternalErrorView::TooLarge,
            GraphInternalError::Timeout => GraphInternalErrorView::Timeout,
            GraphInternalError::InvalidArgument { detail } =>
                GraphInternalErrorView::InvalidArgument { detail: detail@ },
        }
    }
}

/// Port-level error surfaced to the sync engine.
#[derive(Debug)]
pub enum GraphError {
    Unauthorized,
    ReAuthRequired,
    Forbidden,
    NotFound,
    NameConflict,
    ResyncRequired,
    Stale { server_etag: String },
    InvalidRange,
    Throttled { retry_after_s: u64 },
    Transient(String),
    Network { detail: String },
    Decode { detail: String },
    HashMismatch,
    TooLarge,
}

/// Mathematical model of [`GraphError`].
pub enum GraphErrorView {
    Unauthorized,
    ReAuthRequired,
    Forbidden,
    NotFound,
    NameConflict,
    ResyncRequired,
    Stale { server_etag: Seq<char> },
    InvalidRange,
    Throttled { retry_after_s: u64 },
    Transient(Seq<char>),
    Network { detail: Seq<char> },
    Decode { detail: Seq<char> },
    HashMismatch,
    TooLarge,
}

impl View for GraphError {
    type V = GraphErrorView;

    open spec fn view(&self) -> GraphErrorView {
        match self {
            GraphError::Unauthorized => GraphErrorView::Unauthorized,
            GraphError::ReAuthRequired => GraphErrorView::ReAuthRequired,
            GraphError::Forbidden => GraphErrorView::Forbidden,
            GraphError::NotFound => GraphErrorView::NotFound,
            GraphError::NameConflict => GraphErrorView::NameConflict,
            GraphError::ResyncRequired => GraphErrorView::ResyncRequired,
            GraphError::Stale { server_etag } => GraphErrorView::Stale {
                server_etag: server_etag@,
            },
            GraphError::InvalidRange => GraphErrorView::InvalidRange,
            GraphError::Throttled { retry_after_s } => GraphErrorView::Throttled {
                retry_after_s: *retry_after_s,
            },
            GraphError::Transient(d) => GraphErrorView::Transient(d@),
            GraphError::Network { detail } => GraphErrorView::Network { detail: detail@ },
            GraphError::Decode { detail } => GraphErrorView::Decode { detail: detail@ },
            GraphError::HashMismatch => GraphErrorView::HashMismatch,
            GraphError::TooLarge => GraphErrorView::TooLarge,
        }
    }
}

/// The port-level error an internal error maps to: request ids are dropped,
/// a listener timeout and an invalid argument become transient errors.
pub open spec fn port_error(e: GraphInternalErrorView) -> GraphErrorView {
    match e {
        GraphInternalErrorView::Unauthorized { .. } => GraphErrorView::Unauthorized,
        GraphInternalErrorView::ReAuthRequired { .. } => GraphErrorView::ReAuthRequired,
        GraphInternalErrorView::Forbidden { .. } => GraphErrorView::Forbidden,
        GraphInternalErrorView::NotFound { .. } => GraphErrorView::NotFound,
        GraphInternalErrorView::NameConflict { .. } => GraphErrorView::NameConflict,
        GraphInternalErrorView::ResyncRequired { .. } => GraphErrorView::ResyncRequired,
        GraphInternalErrorView::Stale { server_etag, .. } => GraphErrorView::Stale { server_etag },
        GraphInternalErrorView::InvalidRange { .. } => GraphErrorView::InvalidRange,
        GraphInternalErrorView::Throttled { retry_after_s, .. } => GraphErrorView::Throttled {
            retry_after_s,
        },
        GraphInternalErrorView::Transient { detail, .. } => GraphErrorView::Transient(detail),
        GraphInternalErrorView::Network { detail } => GraphErrorView::Network { detail },
        GraphInternalErrorView::Decode { detail } => GraphErrorView::Decode { detail },
        GraphInternalErrorView::HashMismatch => GraphErrorView::HashMismatch,
        GraphInternalErrorView::TooLarge => GraphErrorView::TooLarge,
        GraphInternalErrorView::Timeout => GraphErrorView::Transient("auth listener timeout"@),
        GraphInternalErrorView::InvalidArgument { detail } => GraphErrorView::Transient(
            "invalid argument: "@ + detail,
        ),
    }
}

/// Maps an internal error to the port-level [`GraphError`].
pub fn map_to_port(err: GraphInternalError) -> (r: GraphError)
    ensures
        r@ == port_error(err@),
{
    match err {
        GraphInternalError::Unauthorized { .. } => GraphError::Unauthorized,
        GraphInternalError::ReAuthRequired { .. } => GraphError::ReAuthRequired,
        GraphInternalError::Forbidden { .. } => GraphError::Forbidden,
        GraphInternalError::NotFound { .. } => GraphError::NotFound,
        GraphInternalError::NameConflict { .. } => GraphError::NameConflict,
        GraphInternalError::ResyncRequired { .. } => GraphError::ResyncRequired,
        GraphInternalError::Stale { server_etag, .. } => GraphError::Stale { server_etag },
        GraphInternalError::InvalidRange { .. } => GraphError::InvalidRange,
        GraphInternalError::Throttled { retry_after_s, .. } => GraphError::Throttled {
            retry_after_s,
        },
        GraphInternalError::Transient { detail, .. } => GraphError::Transient(detail),
        GraphInternalError::Network { detail } => GraphError::Network { detail },
        GraphInternalError::Decode { detail } => GraphError::Decode { detail },
        GraphInternalError::HashMismatch => GraphError::HashMismatch,
        GraphInternalError::TooLarge => GraphError::TooLarge,
        GraphInternalError::Timeout => GraphError::Transient(
            String::from_str("auth listener timeout"),
        ),
        GraphInternalError::InvalidArgument { detail } => GraphError::Transient(
            String::from_str("invalid argument: ").concat(detail.as_str()),
        ),
    }
}

} // verus!
