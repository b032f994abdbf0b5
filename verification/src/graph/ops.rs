//! Item mutations and change-notification subscriptions: request URLs and
//! the decisions taken on the replies.
//!
//! A delete succeeds on `204 No Content`; a folder creation that conflicts
//! (`409`) fetches the existing child of the same name instead; a
//! subscription's id is read from the `id` of the reply.

use vstd::prelude::*;

use crate::graph::error::{GraphInternalError, GraphInternalErrorView};
use crate::graph::json::{json_pointer, json_pointer_spec};
use crate::graph::status::{check_status, reply_error, HttpReply};
use crate::protocol::primitives::DriveId;
use crate::urls::{encode_bytes, encode_segment, GRAPH_BASE};
use vstd::string::StringSliceAdditionalSpecFns;

verus! {

/// The URL of item `item_id` (rename, delete).
pub fn item_url(drive_id: &DriveId, item_id: &str) -> (u: String)
    ensures
        u@ == GRAPH_BASE@ + "/drives/"@ + drive_id.0@ + "/items/"@ + item_id@,
{
    String::from_str(GRAPH_BASE).concat("/drives/").concat(drive_id.as_str()).concat("/items/").concat(
        item_id,
    )
}

/// The URL listing the children of `parent_item_id` (folder creation).
pub fn children_url(drive_id: &DriveId, parent_item_id: &str) -> (u: String)
    ensures
        u@ == GRAPH_BASE@ + "/drives/"@ + drive_id.0@ + "/items/"@ + parent_item_id@ + "/children"@,
{
    String::from_str(GRAPH_BASE).concat("/drives/").concat(drive_id.as_str()).concat("/items/").concat(
        parent_item_id,
    ).concat("/children")
}

/// The URL of the child `name` of `parent_item_id`, addressed by path; both
/// are percent-encoded as path segments.
pub fn child_by_name_url(drive_id: &DriveId, parent_item_id: &str, name: &str) -> (u: String)
    ensures
        u@ == GRAPH_BASE@ + "/drives/"@ + drive_id.0@ + "/items/"@ + encode_bytes(
            parent_item_id.spec_bytes(),
            false,
        ) + ":/"@ + encode_bytes(name.spec_bytes(), false),
{
    let parent_enc = encode_segment(parent_item_id);
    let name_enc = encode_segment(name);
    String::from_str(GRAPH_BASE).concat("/drives/").concat(drive_id.as_str()).concat("/items/").concat(
        parent_enc.as_str(),
    ).concat(":/").concat(name_enc.as_str())
}

/// The subscriptions collection URL.
pub fn subscriptions_url() -> (u: String)
    ensures
        u@ == GRAPH_BASE@ + "/subscriptions"@,
{
    String::from_str(GRAPH_BASE).concat("/subscriptions")
}

/// The URL of one subscription.
pub fn subscription_url(subscription_id: &str) -> (u: String)
    ensures
        u@ == GRAPH_BASE@ + "/subscriptions/"@ + subscription_id@,
{
    String::from_str(GRAPH_BASE).concat("/subscriptions/").concat(subscription_id)
}

/// The resource a drive subscription watches: the drive root.
pub fn subscription_resource(drive_id: &DriveId) -> (r: String)
    ensures
        r@ == "/drives/"@ + drive_id.0@ + "/root"@,
{
    String::from_str("/drives/").concat(drive_id.as_str()).concat("/root")
}

/// The outcome of a delete: `204` succeeds; any other status is classified
/// as [`check_status`] does (so another 2xx succeeds too).
pub fn check_delete_status(reply: &HttpReply, request_id: &str) -> (r: Result<(), GraphInternalError>)
    ensures
        (reply.status == 204 || 200 <= reply.status <= 299) ==> r is Ok,
        !(200 <= reply.status <= 299) ==> (r matches Err(e) && e@ == reply_error(*reply, request_id@)),
{
    if reply.status == 204 {
        return Ok(());
    }
    check_status(reply, request_id)
}

/// What to do after a folder-creation reply.
#[derive(Debug)]
pub enum MkdirNext {
    /// Decode the created folder from the reply body.
    DecodeItem,
    /// A child of that name exists: fetch it from this URL.
    FetchExisting(String),
}

/// The decision on a folder-creation reply: on `409` fetch the existing child
/// `name` (addressed with encoded segments), on 2xx decode the reply, otherwise fail as [`check_status`] does.
pub fn mkdir_next(reply: &HttpReply, request_id: &str, drive_id: &DriveId, parent_item_id: &str, name: &str) -> (r:
    Result<MkdirNext, GraphInternalError>)
    ensures
        reply.status == 409 ==> (r matches Ok(MkdirNext::FetchExisting(u)) && u@ == GRAPH_BASE@ + "/drives/"@
            + drive_id.0@ + "/items/"@ + encode_bytes(parent_item_id.spec_bytes(), false) + ":/"@
            + encode_bytes(name.spec_bytes(), false)),
        reply.status != 409 && 200 <= reply.status <= 299 ==> (r matches Ok(MkdirNext::DecodeItem)),
        reply.status != 409 && !(200 <= reply.status <= 299) ==> (r matches Err(e) && e@ == reply_error(
            *reply,
            request_id@,
        )),
{
    if reply.status == 409 {
        return Ok(MkdirNext::FetchExisting(child_by_name_url(drive_id, parent_item_id, name)));
    }
    match check_status(reply, request_id) {
        Ok(()) => Ok(MkdirNext::DecodeItem),
        Err(e) => Err(e),
    }
}

/// The id of a created subscription, read from the JSON reply body.
pub open spec fn subscription_id_result(body: Seq<u8>) -> Result<Seq<char>, GraphInternalErrorView> {
    match json_pointer_spec(body, "/id"@) {
        Err(_) => Err(GraphInternalErrorView::Decode { detail: "error decoding response body"@ }),
        Ok(Some(Some(id))) => Ok(id),
        Ok(_) => Err(GraphInternalErrorView::Decode { detail: "subscriptions response missing id"@ }),
    }
}

/// The subscription id in a reply body: its `id` string; `Decode` when the
/// body is not JSON (with the HTTP client's "error decoding response body")
/// or has no string `id`.
pub fn subscription_id_from(body: &[u8]) -> (r: Result<String, GraphInternalError>)
    ensures
        match subscription_id_result(body@) {
            Ok(id) => r matches Ok(s) && s@ == id,
            Err(v) => r matches Err(e) && e@ == v,
        },
{
    match json_pointer(body, "/id") {
        Err(_) => Err(GraphInternalError::Decode { detail: String::from_str("error decoding response body") }),
        Ok(Some(Some(id))) => Ok(id),
        Ok(_) => Err(GraphInternalError::Decode { detail: String::from_str("subscriptions response missing id") }),
    }
}

} // verus!
