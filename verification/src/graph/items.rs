//! Item and drive lookups: request URLs, the document-library selection and
//! the "404 means absent" rule of the by-path and by-id lookups.

use vstd::prelude::*;

use crate::graph::error::{GraphInternalError, GraphInternalErrorView};
use crate::protocol::primitives::DriveId;
use crate::protocol::remote::{AccountProfile, RemoteItem};
use crate::text::str_equal;
use crate::urls::{encode_bytes, encode_path, GRAPH_BASE};
use vstd::string::StringSliceAdditionalSpecFns;

verus! {

/// `/me` response body.
#[derive(Debug, Clone)]
pub struct AccountProfileDto {
    pub id: String,
    pub user_principal_name: String,
    pub display_name: String,
}

/// `/me/drive` response body (and a library's drive).
#[derive(Debug, Clone)]
pub struct DriveDto {
    pub id: String,
    pub drive_type: String,
}

/// A SharePoint site.
#[derive(Debug, Clone)]
pub struct SiteDto {
    pub id: String,
    pub display_name: Option<String>,
}

/// One entry of a site's drive listing.
#[derive(Debug, Clone)]
pub struct DriveListItem {
    pub id: String,
    pub drive_type: String,
    pub name: Option<String>,
}

/// The profile URL.
pub fn me_url() -> (u: String)
    ensures
        u@ == GRAPH_BASE@ + "/me"@,
{
    String::from_str(GRAPH_BASE).concat("/me")
}

/// The default-drive URL.
pub fn me_drive_url() -> (u: String)
    ensures
        u@ == GRAPH_BASE@ + "/me/drive"@,
{
    String::from_str(GRAPH_BASE).concat("/me/drive")
}

/// The URL of the site at `site_path` on `host`.
pub fn site_by_path_url(host: &str, site_path: &str) -> (u: String)
    ensures
        u@ == GRAPH_BASE@ + "/sites/"@ + host@ + ":/sites/"@ + site_path@,
{
    String::from_str(GRAPH_BASE).concat("/sites/").concat(host).concat(":/sites/").concat(site_path)
}

/// The URL listing the drives (document libraries) of a site.
pub fn site_drives_url(site_id: &str) -> (u: String)
    ensures
        u@ == GRAPH_BASE@ + "/sites/"@ + site_id@ + "/drives"@,
{
    String::from_str(GRAPH_BASE).concat("/sites/").concat(site_id).concat("/drives")
}

/// The URL of the item at `path` from the drive root; the path is
/// percent-encoded with its `/` separators kept.
pub fn item_by_path_url(drive_id: &DriveId, path: &str) -> (u: String)
    ensures
        u@ == GRAPH_BASE@ + "/drives/"@ + drive_id.0@ + "/root:"@ + encode_bytes(path.spec_bytes(), true),
{
    let encoded = encode_path(path);
    String::from_str(GRAPH_BASE).concat("/drives/").concat(drive_id.as_str()).concat("/root:").concat(
        encoded.as_str(),
    )
}

/// The URL of the item `item_id`.
pub fn item_by_id_url(drive_id: &DriveId, item_id: &str) -> (u: String)
    ensures
        u@ == GRAPH_BASE@ + "/drives/"@ + drive_id.0@ + "/items/"@ + item_id@,
{
    String::from_str(GRAPH_BASE).concat("/drives/").concat(drive_id.as_str()).concat("/items/").concat(
        item_id,
    )
}

/// Whether a listing entry is the library named `name`.
pub open spec fn is_library(d: DriveListItem, name: Seq<char>) -> bool {
    d.name matches Some(n) && n@ == name
}

/// The drive of the first library in `listing` named `library_name`;
/// `NotFound` (with an empty request id) when there is none.
pub fn select_library(listing: Vec<DriveListItem>, library_name: &str) -> (r: Result<DriveDto, GraphInternalError>)
    ensures
        match r {
            Ok(d) => exists|i: int|
                0 <= i < listing@.len() && is_library(#[trigger] listing@[i], library_name@) && d.id@
                    == listing@[i].id@ && d.drive_type@ == listing@[i].drive_type@ && forall|j: int|
                    0 <= j < i ==> !is_library(#[trigger] listing@[j], library_name@),
            Err(e) => e@ == (GraphInternalErrorView::NotFound { request_id: Seq::empty() })
                && forall|i: int| 0 <= i < listing@.len() ==> !is_library(#[trigger] listing@[i], library_name@),
        },
{
    let n = listing.len();
    for i in 0..n
        invariant
            n == listing@.len(),
            forall|j: int| 0 <= j < i ==> !is_library(#[trigger] listing@[j], library_name@),
    {
        let d = &listing[i];
        let hit = match &d.name {
            Some(nm) => str_equal(nm.as_str(), library_name),
            None => false,
        };
        if hit {
            proof {
                assert(is_library(listing@[i as int], library_name@));
            }
            return Ok(DriveDto { id: d.id.clone(), drive_type: d.drive_type.clone() });
        }
    }
    Err(GraphInternalError::NotFound { request_id: String::new() })
}

/// A lookup's outcome with `NotFound` read as "no such item".
pub fn found_or_none(r: Result<RemoteItem, GraphInternalError>) -> (o: Result<Option<RemoteItem>, GraphInternalError>)
    ensures
        match r {
            Ok(item) => o == Ok::<Option<RemoteItem>, GraphInternalError>(Some(item)),
            Err(GraphInternalError::NotFound { .. }) => o == Ok::<Option<RemoteItem>, GraphInternalError>(None),
            Err(e) => o == Err::<Option<RemoteItem>, GraphInternalError>(e),
        },
{
    match r {
        Ok(item) => Ok(Some(item)),
        Err(GraphInternalError::NotFound { .. }) => Ok(None),
        Err(e) => Err(e),
    }
}

/// The port-level profile of a `/me` response: tenant and drive ids are
/// left empty (they come from the `id_token` and `/me/drive`).
pub fn profile_from_dto(dto: AccountProfileDto) -> (p: AccountProfile)
    ensures
        p.oid@ == dto.id@,
        p.upn@ == dto.user_principal_name@,
        p.display_name@ == dto.display_name@,
        p.tenant_id@ == Seq::<char>::empty(),
        p.drive_id@ == Seq::<char>::empty(),
{
    AccountProfile {
        oid: dto.id,
        upn: dto.user_principal_name,
        display_name: dto.display_name,
        tenant_id: String::new(),
        drive_id: String::new(),
    }
}

} // verus!
