use onesync::keychain::macos::{
    delete_outcome, load_outcome, store_outcome, KeychainFailure, ERR_SEC_ITEM_NOT_FOUND,
};
use onesync::graph::error::{GraphError, GraphInternalError};
use onesync::graph::fakes::FakeRemoteDrive;
use onesync::keychain::vault::{
    fetch_refresh, InMemoryTokenVault, KeychainTokenVault, RefreshToken, TokenVault, VaultError,
};
use onesync::protocol::id::{AccountId, AccountTag, Id};
use onesync::protocol::primitives::DeltaCursor;
use onesync::protocol::remote::RemoteItemId;

#[test]
fn upload_then_download_round_trip() {
    let mut drive = FakeRemoteDrive::new();
    let data = b"hello world".to_vec();
    let item = drive.upload_sync("root", "hello.txt", data.clone());
    assert_eq!(item.name, "hello.txt");
    assert_eq!(item.id, "root/hello.txt");
    assert_eq!(item.size, 11);
    assert_eq!(item.e_tag.as_deref(), Some("etag-1"));
    assert_eq!(
        item.file.as_ref().unwrap().hashes.sha1_hash.as_deref(),
        Some("2aae6c35c94fcfb415dbe95f408b9ce91ee846ed")
    );
    let fetched = drive.download_sync(&item.id).unwrap();
    assert_eq!(fetched, data);
}

#[test]
fn mkdir_then_delta_contains_folder() {
    let mut drive = FakeRemoteDrive::new();
    let folder = drive.mkdir_sync("root", "Documents");
    let (items, cursor) = drive.delta_all_sync();
    assert_eq!(items.len(), 1);
    assert_eq!(items[0].id, folder.id);
    assert!(items[0].folder.is_some());
    assert_eq!(cursor, "cursor-gen-1");
    assert!(matches!(drive.download_sync(&folder.id), Err(GraphInternalError::NotFound { .. })));
}

#[test]
fn rename_changes_name() {
    let mut drive = FakeRemoteDrive::new();
    let item = drive.upload_sync("root", "old.txt", b"data".to_vec());
    let renamed = drive.rename_sync(&item.id, "new.txt").unwrap();
    assert_eq!(renamed.name, "new.txt");
    assert_eq!(renamed.id, item.id);
    assert!(matches!(drive.rename_sync("missing", "x"), Err(GraphInternalError::NotFound { request_id }) if request_id.is_empty()));
    assert_eq!(drive.current_gen(), 3);
}

#[test]
fn delete_removes_item() {
    let mut drive = FakeRemoteDrive::new();
    let item = drive.upload_sync("root", "gone.txt", b"bye".to_vec());
    drive.delete_sync(&item.id).unwrap();
    let err = drive.download_sync(&item.id).unwrap_err();
    assert!(matches!(err, GraphInternalError::NotFound { .. }));
    assert!(drive.delete_sync(&item.id).is_err());
}

#[test]
fn delta_since_cursor_returns_only_new_items() {
    let mut drive = FakeRemoteDrive::new();
    drive.upload_sync("root", "a.txt", b"a".to_vec());
    let (_items, cursor) = drive.delta_all_sync();
    drive.upload_sync("root", "b.txt", b"b".to_vec());
    let (new_items, new_cursor) = drive.delta_since_sync(&cursor);
    assert_eq!(new_items.len(), 1, "only the new item should appear since cursor");
    assert_eq!(new_items[0].name, "b.txt");
    assert_eq!(new_cursor, "cursor-gen-2");
    let (none, _) = drive.delta_since_sync(&new_cursor);
    assert!(none.is_empty());
    let (all, _) = drive.delta_since_sync("garbage");
    assert_eq!(all.len(), 2);
}

#[test]
fn implements_remote_drive_trait() {
    let mut drive = FakeRemoteDrive::new();
    let profile = drive.account_profile();
    assert_eq!(profile.upn, "fake@example.com");
    let page = drive.delta(None);
    assert!(page.items.is_empty());
    assert!(page.delta_token.is_some());
    let parent_id = RemoteItemId("root".to_owned());
    let item = drive.upload_small(&parent_id, "test.txt", b"content");
    assert_eq!(item.name, "test.txt");
    let rs = drive.download(&RemoteItemId(item.id.clone())).unwrap();
    assert_eq!(&rs.0[..], b"content");
    let renamed = drive.rename(&RemoteItemId(item.id.clone()), "renamed.txt").unwrap();
    assert_eq!(renamed.name, "renamed.txt");
    assert_eq!(drive.item_by_path("renamed.txt").unwrap().id, item.id);
    drive.delete(&RemoteItemId(item.id.clone())).unwrap();
    assert!(matches!(drive.download(&RemoteItemId(item.id.clone())), Err(GraphError::NotFound)));
    let folder = drive.mkdir(&parent_id, "NewFolder");
    assert_eq!(folder.name, "NewFolder");
    assert!(folder.folder.is_some());
    assert_eq!(drive.subscribe("state-1"), "fake-sub-state-1");
    let session = drive.upload_session(&parent_id, "big.bin", 10);
    assert_eq!(session.upload_url, "fake://upload/root/big.bin");
    assert_eq!(session.bytes_uploaded, 0);
    let since = drive.delta(Some(&DeltaCursor::new("cursor-gen-2")));
    assert_eq!(since.items.len(), 1);
    assert_eq!(since.items[0].name, "NewFolder");
}

fn id(n: u128) -> AccountId {
    Id::<AccountTag>::from_ulid(n << 64)
}

#[test]
fn fakes_store_then_load_round_trips() {
    let mut vault = InMemoryTokenVault::new();
    let acct = id(1);
    let kc = vault.store_refresh(&acct, &RefreshToken("xyz".into())).expect("store");
    assert_eq!(kc.as_str(), acct.to_string());
    let back = vault.load_refresh(&acct).expect("load");
    assert_eq!(back.0, "xyz");
}

#[test]
fn fakes_load_returns_not_found_for_unknown_account() {
    let vault = InMemoryTokenVault::new();
    let err = vault.load_refresh(&id(1)).expect_err("not found");
    assert!(matches!(err, VaultError::NotFound));
}

#[test]
fn delete_is_idempotent_on_absent_entry() {
    let mut vault = InMemoryTokenVault::new();
    vault.delete(&id(1)).expect("delete absent");
    vault.store_refresh(&id(1), &RefreshToken("a".into())).unwrap();
    vault.delete(&id(1)).unwrap();
    vault.delete(&id(1)).unwrap();
    assert!(matches!(vault.load_refresh(&id(1)), Err(VaultError::NotFound)));
}

#[test]
fn store_overwrites_existing_entry() {
    let mut vault = InMemoryTokenVault::new();
    let acct = id(1);
    let _ = vault.store_refresh(&acct, &RefreshToken("v1".into())).expect("v1");
    let _ = vault.store_refresh(&acct, &RefreshToken("v2".into())).expect("v2");
    let back = vault.load_refresh(&acct).expect("load");
    assert_eq!(back.0, "v2");
}

#[test]
fn fetch_refresh_delegates_to_vault() {
    let mut vault = InMemoryTokenVault::new();
    let acct = id(2);
    let _ = vault.store_refresh(&acct, &RefreshToken("x".into())).expect("store");
    let back = fetch_refresh(&vault, &acct).expect("fetch");
    assert_eq!(back.0, "x");
}

#[test]
fn keychain_vault_is_macos_only_elsewhere() {
    let mut vault = KeychainTokenVault;
    for r in [
        vault.load_refresh(&id(1)).map(|_| ()),
        vault.store_refresh(&id(1), &RefreshToken("x".into())).map(|_| ()),
        vault.delete(&id(1)),
    ] {
        assert!(matches!(r, Err(VaultError::Backend(m)) if m == "KeychainTokenVault is macOS-only"));
    }
}

#[test]
fn keychain_outcomes_map_item_not_found() {
    let missing = || KeychainFailure { code: ERR_SEC_ITEM_NOT_FOUND, message: "not found".to_owned() };
    let other = || KeychainFailure { code: -1, message: "denied".to_owned() };
    assert!(matches!(load_outcome(Err(missing())), Err(VaultError::NotFound)));
    assert!(matches!(load_outcome(Err(other())), Err(VaultError::Backend(m)) if m == "get_generic_password: denied"));
    assert_eq!(load_outcome(Ok(b"tok".to_vec())).unwrap().0, "tok");
    assert!(matches!(load_outcome(Ok(vec![0xff])), Err(VaultError::Backend(m)) if m.starts_with("non-utf8 secret: ")));
    assert!(delete_outcome(Err(missing())).is_ok());
    assert!(matches!(delete_outcome(Err(other())), Err(VaultError::Backend(m)) if m == "delete_generic_password: denied"));
    assert!(matches!(store_outcome(Err(other())), Err(VaultError::Backend(m)) if m == "set_generic_password: denied"));
    assert!(store_outcome(Ok(())).is_ok());
}
