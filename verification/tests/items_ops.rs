use onesync::graph::adapter::{FixedTokenSource, GraphAdapterError, TokenSource};
use onesync::graph::error::GraphInternalError;
use onesync::graph::items::{
    found_or_none, item_by_id_url, item_by_path_url, me_drive_url, me_url, profile_from_dto,
    select_library, site_by_path_url, site_drives_url, AccountProfileDto, DriveListItem,
};
use onesync::graph::ops::{
    check_delete_status, children_url, item_url, mkdir_next, subscription_id_from,
    subscription_resource, subscription_url, subscriptions_url, MkdirNext,
};
use onesync::graph::status::HttpReply;
use onesync::protocol::primitives::DriveId;
use onesync::protocol::remote::RemoteItem;

fn reply(status: u16) -> HttpReply {
    HttpReply {
        status,
        status_text: format!("{status}"),
        request_id: None,
        retry_after: None,
        etag: None,
        body: String::new(),
    }
}

fn item(id: &str) -> RemoteItem {
    RemoteItem {
        id: id.to_owned(),
        name: "doc.txt".to_owned(),
        size: 42,
        e_tag: None,
        c_tag: None,
        last_modified_date_time: None,
        folder: None,
        file: None,
        deleted: None,
        parent_reference: None,
    }
}

#[test]
fn account_profile_200() {
    let dto = AccountProfileDto {
        id: "user-oid".to_owned(),
        user_principal_name: "alice@example.com".to_owned(),
        display_name: "Alice".to_owned(),
    };
    let p = profile_from_dto(dto);
    assert_eq!(p.oid, "user-oid");
    assert_eq!(p.upn, "alice@example.com");
    assert_eq!(p.display_name, "Alice");
    assert!(p.tenant_id.is_empty() && p.drive_id.is_empty());
    assert_eq!(me_url(), "https://graph.microsoft.com/v1.0/me");
    assert_eq!(me_drive_url(), "https://graph.microsoft.com/v1.0/me/drive");
}

#[test]
fn item_by_path_404_returns_none() {
    let r = found_or_none(Err(GraphInternalError::NotFound { request_id: "r".to_owned() })).unwrap();
    assert!(r.is_none());
    let r = found_or_none(Err(GraphInternalError::Forbidden { request_id: "r".to_owned() }));
    assert!(matches!(r, Err(GraphInternalError::Forbidden { .. })));
}

#[test]
fn item_by_path_200() {
    let r = found_or_none(Ok(item("found-item"))).unwrap().unwrap();
    assert_eq!(r.id, "found-item");
    let drive = DriveId::new("drv1");
    assert_eq!(
        item_by_path_url(&drive, "/My Docs/a#b.txt"),
        "https://graph.microsoft.com/v1.0/drives/drv1/root:/My%20Docs/a%23b.txt"
    );
    assert_eq!(item_by_id_url(&drive, "i9"), "https://graph.microsoft.com/v1.0/drives/drv1/items/i9");
}

#[test]
fn site_library_selection() {
    let listing = vec![
        DriveListItem { id: "d0".to_owned(), drive_type: "documentLibrary".to_owned(), name: None },
        DriveListItem { id: "d1".to_owned(), drive_type: "documentLibrary".to_owned(), name: Some("Shared Documents".to_owned()) },
        DriveListItem { id: "d2".to_owned(), drive_type: "documentLibrary".to_owned(), name: Some("Shared Documents".to_owned()) },
    ];
    let d = select_library(listing.clone(), "Shared Documents").unwrap();
    assert_eq!(d.id, "d1");
    assert!(matches!(select_library(listing, "Other"), Err(GraphInternalError::NotFound { request_id }) if request_id.is_empty()));
    assert_eq!(site_by_path_url("contoso.sharepoint.com", "team"), "https://graph.microsoft.com/v1.0/sites/contoso.sharepoint.com:/sites/team");
    assert_eq!(site_drives_url("s1"), "https://graph.microsoft.com/v1.0/sites/s1/drives");
}

#[test]
fn delete_204_succeeds() {
    assert!(check_delete_status(&reply(204), "rid").is_ok());
    assert!(matches!(check_delete_status(&reply(404), "rid"), Err(GraphInternalError::NotFound { .. })));
}

#[test]
fn mkdir_conflict_409_fetches_existing() {
    let drive = DriveId::new("drv1");
    match mkdir_next(&reply(409), "rid", &drive, "parent-1", "Docs").unwrap() {
        MkdirNext::FetchExisting(u) => assert_eq!(u, "https://graph.microsoft.com/v1.0/drives/drv1/items/parent-1:/Docs"),
        MkdirNext::DecodeItem => panic!("expected a fetch of the existing folder"),
    }
    match mkdir_next(&reply(409), "rid", &drive, "par ent", "a#b").unwrap() {
        MkdirNext::FetchExisting(u) => assert_eq!(u, "https://graph.microsoft.com/v1.0/drives/drv1/items/par%20ent:/a%23b"),
        MkdirNext::DecodeItem => panic!("expected a fetch of the existing folder"),
    }
}

#[test]
fn mkdir_201_returns_folder() {
    let drive = DriveId::new("drv1");
    assert!(matches!(mkdir_next(&reply(201), "rid", &drive, "p", "n"), Ok(MkdirNext::DecodeItem)));
    assert!(matches!(mkdir_next(&reply(403), "rid", &drive, "p", "n"), Err(GraphInternalError::Forbidden { .. })));
    assert_eq!(children_url(&drive, "p"), "https://graph.microsoft.com/v1.0/drives/drv1/items/p/children");
    assert_eq!(item_url(&drive, "i"), "https://graph.microsoft.com/v1.0/drives/drv1/items/i");
}

#[test]
fn subscription_urls_and_id() {
    assert_eq!(subscriptions_url(), "https://graph.microsoft.com/v1.0/subscriptions");
    assert_eq!(subscription_url("s1"), "https://graph.microsoft.com/v1.0/subscriptions/s1");
    assert_eq!(subscription_resource(&DriveId::new("drv1")), "/drives/drv1/root");
    assert_eq!(subscription_id_from(br#"{"id":"sub-9"}"#).unwrap(), "sub-9");
    assert!(matches!(subscription_id_from(b"{}"), Err(GraphInternalError::Decode { detail }) if detail == "subscriptions response missing id"));
    assert!(matches!(subscription_id_from(b"not json"), Err(GraphInternalError::Decode { detail }) if detail == "error decoding response body"));
}

#[test]
fn fixed_token_source_and_adapter_error() {
    let src = FixedTokenSource("tok".to_owned());
    assert_eq!(src.access_token().unwrap(), "tok");
    assert_eq!(GraphAdapterError::ClientBuild("tls".to_owned()).message(), "failed to build HTTP client: tls");
}
