//! Classification of non-2xx Microsoft Graph responses into [`GraphInternalError`].

use vstd::prelude::*;

use crate::graph::error::{GraphInternalError, GraphInternalErrorView};
use crate::graph::json::{json_str, json_str_at};
use crate::text::{decimal, parse_u64, parse_u64_spec, push_decimal, str_equal};
use vstd::utf8::encode_utf8;

verus! {

/// The parts of an HTTP response that the classification reads.
pub struct HttpReply {
    /// Numeric status code.
    pub status: u16,
    /// The status as `Display` writes it (e.g. `"500 Internal Server Error"`).
    pub status_text: String,
    /// `request-id` header, when present and visible ASCII.
    pub request_id: Option<String>,
    /// `retry-after` header, when present and visible ASCII.
    pub retry_after: Option<String>,
    /// `etag` header, when present and visible ASCII.
    pub etag: Option<String>,
    /// Response body (empty when unreadable).
    pub body: String,
}

/// Microsoft error code of a body: `error.code` when the body is JSON and it is a string.
pub open spec fn ms_error_code(body: Seq<char>) -> Option<Seq<char>> {
    json_str_at(encode_utf8(body), "/error/code"@)
}

/// The error a non-2xx reply maps to. `429`, and `503` carrying a
/// `Retry-After` header, are `Throttled` (60 s when the header is missing or
/// not a number); any other 5xx, including a `503` without `Retry-After`, is
/// `Transient`.
pub open spec fn status_error(
    status: u16,
    status_text: Seq<char>,
    request_id: Seq<char>,
    retry_after: Option<u64>,
    has_retry_after: bool,
    etag: Seq<char>,
    body: Seq<char>,
) -> GraphInternalErrorView {
    if status == 401 && ms_error_code(body) == Some("invalid_grant"@) {
        GraphInternalErrorView::ReAuthRequired { request_id }
    } else if status == 401 {
        GraphInternalErrorView::Unauthorized { request_id }
    } else if status == 403 {
        GraphInternalErrorView::Forbidden { request_id }
    } else if status == 404 {
        GraphInternalErrorView::NotFound { request_id }
    } else if status == 409 {
        GraphInternalErrorView::NameConflict { request_id }
    } else if status == 410 {
        GraphInternalErrorView::ResyncRequired { request_id }
    } else if status == 412 {
        GraphInternalErrorView::Stale { server_etag: etag, request_id }
    } else if status == 416 {
        GraphInternalErrorView::InvalidRange { request_id }
    } else if status == 429 || (status == 503 && has_retry_after) {
        GraphInternalErrorView::Throttled {
            retry_after_s: match retry_after {
                Some(s) => s,
                None => 60,
            },
            request_id,
        }
    } else if 500 <= status <= 599 {
        GraphInternalErrorView::Transient {
            detail: "HTTP "@ + status_text + ": "@ + body,
            request_id,
        }
    } else {
        GraphInternalErrorView::Transient {
            detail: "unexpected HTTP "@ + decimal(status as nat) + ": "@ + body,
            request_id,
        }
    }
}

/// `Some(s@)` for `Some(s)`.
pub open spec fn opt_view(o: Option<String>) -> Option<Seq<char>> {
    match o {
        Some(s) => Some(s@),
        None => None,
    }
}

/// The `Retry-After` seconds a reply carries, when the header is a `u64`.
pub open spec fn retry_after_seconds(h: Option<String>) -> Option<u64> {
    match h {
        Some(s) => parse_u64_spec(encode_utf8(s@)),
        None => None,
    }
}

/// The error a non-2xx `reply` maps to: the request id is the server's
/// `request-id` header when present, else `request_id`; the `ETag` defaults to
/// the empty string.
pub open spec fn reply_error(reply: HttpReply, request_id: Seq<char>) -> GraphInternalErrorView {
    status_error(
        reply.status,
        reply.status_text@,
        match reply.request_id {
            Some(s) => s@,
            None => request_id,
        },
        retry_after_seconds(reply.retry_after),
        reply.retry_after is Some,
        match reply.etag {
            Some(s) => s@,
            None => Seq::<char>::empty(),
        },
        reply.body@,
    )
}

/// A `401` reply means the user must sign in again exactly when its body's
/// `error.code` is the string `invalid_grant`; with any other code, or none,
/// it is `Unauthorized` (the access token is refreshed and the call retried).
/// The request id is the server's when it sent one.
pub proof fn law_unauthorized_reauth_only_on_invalid_grant(reply: HttpReply, request_id: Seq<char>)
    requires
        reply.status == 401,
    ensures
        ({
            let rid = match reply.request_id {
                Some(s) => s@,
                None => request_id,
            };
            if json_str_at(encode_utf8(reply.body@), "/error/code"@) == Some("invalid_grant"@) {
                reply_error(reply, request_id) == (GraphInternalErrorView::ReAuthRequired { request_id: rid })
            } else {
                reply_error(reply, request_id) == (GraphInternalErrorView::Unauthorized { request_id: rid })
            }
        }),
{
}

/// Inspects a reply's status: `Ok(())` on 2xx, otherwise the matching
/// [`GraphInternalError`]. The request id is the server's `request-id` header
/// when present, else `request_id`; the `ETag` defaults to the empty string.
pub fn check_status(reply: &HttpReply, request_id: &str) -> (r: Result<(), GraphInternalError>)
    ensures
        200 <= reply.status <= 299 ==> r is Ok,
        !(200 <= reply.status <= 299) ==> (r matches Err(e) && e@ == reply_error(*reply, request_id@)),
{
    let status = reply.status;
    if 200 <= status && status <= 299 {
        return Ok(());
    }
    let server_request_id = match &reply.request_id {
        Some(s) => s.clone(),
        None => String::from_str(request_id),
    };
    let retry_after: Option<u64> = match &reply.retry_after {
        Some(s) => parse_u64(s.as_str().as_bytes()),
        None => None,
    };
    let etag = match &reply.etag {
        Some(s) => s.clone(),
        None => String::new(),
    };
    if status == 401 {
        let code = json_str(reply.body.as_str().as_bytes(), "/error/code");
        let invalid_grant = match &code {
            Some(c) => str_equal(c.as_str(), "invalid_grant"),
            None => false,
        };
        if invalid_grant {
            return Err(GraphInternalError::ReAuthRequired { request_id: server_request_id });
        }
        return Err(GraphInternalError::Unauthorized { request_id: server_request_id });
    }
    if status == 403 {
        return Err(GraphInternalError::Forbidden { request_id: server_request_id });
    }
    if status == 404 {
        return Err(GraphInternalError::NotFound { request_id: server_request_id });
    }
    if status == 409 {
        return Err(GraphInternalError::NameConflict { request_id: server_request_id });
    }
    if status == 410 {
        return Err(GraphInternalError::ResyncRequired { request_id: server_request_id });
    }
    if status == 412 {
        return Err(GraphInternalError::Stale { server_etag: etag, request_id: server_request_id });
    }
    if status == 416 {
        return Err(GraphInternalError::InvalidRange { request_id: server_request_id });
    }
    if status == 429 || (status == 503 && reply.retry_after.is_some()) {
        let secs = match retry_after {
            Some(s) => s,
            None => 60,
        };
        return Err(GraphInternalError::Throttled { retry_after_s: secs, request_id: server_request_id });
    }
    if 500 <= status && status <= 599 {
        let detail = String::from_str("HTTP ").concat(reply.status_text.as_str()).concat(": ").concat(
            reply.body.as_str(),
        );
        return Err(GraphInternalError::Transient { detail, request_id: server_request_id });
    }
    let mut detail = String::from_str("unexpected HTTP ");
    push_decimal(&mut detail, status as u64);
    let detail = detail.concat(": ").concat(reply.body.as_str());
    Err(GraphInternalError::Transient { detail, request_id: server_request_id })
}

} // verus!
