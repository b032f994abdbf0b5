use sha1::Digest;
use onesync::graph::client::{is_still_fresh, new_request_id, TokenCache};
use onesync::graph::delta::{check_delta_status, delta_page_from, delta_url, extract_token_param, token_from_pairs};
use onesync::graph::download::{base64_encode_qxh, check_download, content_url, quick_xor_digest};
use onesync::graph::error::GraphInternalError;
use onesync::graph::quickxor::QuickXorHasher;
use onesync::graph::status::{check_status, HttpReply};
use onesync::graph::throttle::{AcquireStep, Bucket};
use onesync::protocol::primitives::{DeltaCursor, DriveId, Timestamp};
use onesync::protocol::remote::{FileHashes, RemoteItem};

fn reply(status: u16, text: &str) -> HttpReply {
    HttpReply {
        status,
        status_text: text.to_owned(),
        request_id: None,
        retry_after: None,
        etag: None,
        body: String::new(),
    }
}

#[test]
fn get_200_happy_path() {
    assert!(check_status(&reply(200, "200 OK"), "rid").is_ok());
}

#[test]
fn get_401_returns_unauthorized() {
    let err = check_status(&reply(401, "401 Unauthorized"), "rid").unwrap_err();
    assert!(matches!(err, GraphInternalError::Unauthorized { request_id } if request_id == "rid"));
}

#[test]
fn get_429_returns_throttled() {
    let mut r = reply(429, "429 Too Many Requests");
    r.retry_after = Some("30".to_owned());
    let err = check_status(&r, "rid").unwrap_err();
    assert!(matches!(err, GraphInternalError::Throttled { retry_after_s: 30, .. }), "got: {err:?}");
}

#[test]
fn get_500_returns_transient() {
    let err = check_status(&reply(500, "500 Internal Server Error"), "rid").unwrap_err();
    assert!(matches!(err, GraphInternalError::Transient { detail, .. } if detail == "HTTP 500 Internal Server Error: "));
}

#[test]
fn status_classification_details() {
    let mut r = reply(401, "401 Unauthorized");
    r.body = r#"{"error":{"code":"invalid_grant"}}"#.to_owned();
    r.request_id = Some("server-rid".to_owned());
    assert!(matches!(check_status(&r, "rid"), Err(GraphInternalError::ReAuthRequired { request_id }) if request_id == "server-rid"));
    let mut r = reply(412, "412 Precondition Failed");
    r.etag = Some("\"e1\"".to_owned());
    assert!(matches!(check_status(&r, "rid"), Err(GraphInternalError::Stale { server_etag, .. }) if server_etag == "\"e1\""));
    let mut r = reply(503, "503 Service Unavailable");
    r.retry_after = Some("soon".to_owned());
    assert!(matches!(check_status(&r, "rid"), Err(GraphInternalError::Throttled { retry_after_s: 60, .. })));
    let mut r = reply(503, "503 Service Unavailable");
    r.body = "down".to_owned();
    assert!(matches!(check_status(&r, "rid"), Err(GraphInternalError::Transient { detail, request_id }) if detail == "HTTP 503 Service Unavailable: down" && request_id == "rid"));
    let r = reply(429, "429 Too Many Requests");
    assert!(matches!(check_status(&r, "rid"), Err(GraphInternalError::Throttled { retry_after_s: 60, .. })));
    let mut r = reply(418, "418 I'm a teapot");
    r.body = "tea".to_owned();
    assert!(matches!(check_status(&r, "rid"), Err(GraphInternalError::Transient { detail, .. }) if detail == "unexpected HTTP 418: tea"));
    for (s, t) in [(403, "Forbidden"), (404, "NotFound"), (409, "NameConflict"), (410, "ResyncRequired"), (416, "InvalidRange")] {
        let e = check_status(&reply(s, "x"), "rid").unwrap_err();
        assert!(format!("{e:?}").starts_with(t), "{s}: {e:?}");
    }
}

#[test]
fn ensure_fresh_token_caches() {
    let mut cache = TokenCache::new();
    let now = Timestamp::from_unix(1_700_000_000, 0);
    assert!(cache.fresh_token("acct-1", now).is_none());
    let tok = cache.record_refresh("acct-1", "token-abc".to_owned(), 3600, now);
    assert_eq!(tok, "token-abc");
    let later = Timestamp::from_unix(1_700_000_010, 0);
    assert_eq!(cache.fresh_token("acct-1", later).as_deref(), Some("token-abc"));
    assert!(cache.fresh_token("acct-2", later).is_none());
}

#[test]
fn token_is_refreshed_within_the_leeway() {
    let mut cache = TokenCache::new();
    let now = Timestamp::from_unix(1_000, 0);
    cache.record_refresh("a", "t".to_owned(), 3600, now);
    assert!(cache.fresh_token("a", Timestamp::from_unix(1_000 + 3600 - 121, 0)).is_some());
    assert!(cache.fresh_token("a", Timestamp::from_unix(1_000 + 3600 - 120, 0)).is_none());
    assert!(is_still_fresh(Timestamp::from_unix(200, 1), Timestamp::from_unix(80, 0)));
    assert!(!is_still_fresh(Timestamp::from_unix(200, 0), Timestamp::from_unix(80, 0)));
    cache.record_refresh("a", "t2".to_owned(), u64::MAX, now);
    assert_eq!(cache.fresh_token("a", now).as_deref(), Some("t2"));
    assert!(cache.fresh_token("a", Timestamp::from_unix(1_000 + 3600 - 120, 0)).is_none());
}

#[test]
fn request_ids_are_hex() {
    let id = new_request_id(16).expect("random source");
    assert_eq!(id.len(), 32);
    assert!(id.chars().all(|c| c.is_ascii_hexdigit() && !c.is_ascii_uppercase()));
}

#[test]
fn acquire_waits_out_pause() {
    let mut bucket = Bucket::with_rate(100);
    bucket.pause_for(0, 80);
    assert_eq!(bucket.acquire(10), AcquireStep::SleepMs(70));
    assert_eq!(bucket.acquire(80), AcquireStep::Granted);
    assert_eq!(bucket.pause_until_ms(), 0);
}

#[test]
fn pause_for_keeps_later_deadline() {
    let mut bucket = Bucket::with_rate(100);
    bucket.pause_for(0, 50);
    bucket.pause_for(0, 10);
    assert_eq!(bucket.pause_until_ms(), 50);
    assert_eq!(bucket.acquire(0), AcquireStep::SleepMs(50));
}

#[test]
fn acquire_without_pause_returns_immediately() {
    let mut bucket = Bucket::with_rate(100);
    assert_eq!(bucket.acquire(0), AcquireStep::Granted);
}

#[test]
fn with_rate_zero_does_not_panic() {
    let bucket = Bucket::with_rate(0);
    assert_eq!(bucket.burst(), 2);
    assert_eq!(bucket.interval_ms(), 1000);
}

#[test]
fn bucket_burst_and_refill() {
    let mut bucket = Bucket::with_rate(2);
    assert_eq!(bucket.available_permits(), 4);
    for _ in 0..4 {
        assert_eq!(bucket.acquire(0), AcquireStep::Granted);
    }
    assert_eq!(bucket.acquire(0), AcquireStep::WaitForPermit);
    bucket.tick();
    assert_eq!(bucket.acquire(0), AcquireStep::Granted);
    for _ in 0..10 {
        bucket.tick();
    }
    assert_eq!(bucket.available_permits(), 4);
    assert_eq!(bucket.interval_ms(), 500);
    assert_eq!(Bucket::new().burst(), 2 * u64::from(onesync::graph::throttle::GRAPH_RPS_PER_ACCOUNT));
}

#[test]
fn quickxorhash_empty_is_all_zeros_except_length() {
    let h = QuickXorHasher::new();
    assert_eq!(h.finalize(), [0u8; 20]);
}

#[test]
fn quickxorhash_deterministic() {
    let mut h1 = QuickXorHasher::new();
    h1.update(b"hello world");
    let mut h2 = QuickXorHasher::new();
    h2.update(b"hello world");
    assert_eq!(h1.finalize(), h2.finalize());
}

#[test]
fn quickxorhash_differs_for_different_input() {
    let mut h1 = QuickXorHasher::new();
    h1.update(b"foo");
    let mut h2 = QuickXorHasher::new();
    h2.update(b"bar");
    assert_ne!(h1.finalize(), h2.finalize());
}

#[test]
fn quickxorhash_incremental_equals_whole() {
    let data: Vec<u8> = (0..1000u32).map(|i| (i * 7 % 251) as u8).collect();
    let mut h = QuickXorHasher::new();
    h.update(&data[..333]);
    h.update(&data[333..]);
    assert_eq!(h.finalize(), quick_xor_digest(&data));
    let mut one = QuickXorHasher::new();
    one.update(&[1u8]);
    let mut expected = [0u8; 20];
    expected[0] = 1;
    expected[12] = 1;
    assert_eq!(one.finalize(), expected);
}

fn sha1_hex(data: &[u8]) -> String {
    sha1::Sha1::digest(data).iter().map(|b| format!("{b:02x}")).collect()
}

#[test]
fn download_happy_path_sha1_matches() {
    let content = b"Hello, OneDrive!".to_vec();
    let hashes = FileHashes { sha1_hash: Some(sha1_hex(&content).to_uppercase()), quick_xor_hash: None };
    let bytes = check_download(content.clone(), Some(&hashes)).unwrap();
    assert_eq!(bytes, content);
}

#[test]
fn download_hash_mismatch_returns_error() {
    let hashes = FileHashes {
        sha1_hash: Some("da39a3ee5e6b4b0d3255bfef95601890afd80709".to_owned()),
        quick_xor_hash: None,
    };
    let err = check_download(b"Wrong content".to_vec(), Some(&hashes)).unwrap_err();
    assert!(matches!(err, GraphInternalError::HashMismatch));
}

#[test]
fn download_no_hashes_returns_bytes() {
    let content = b"raw data".to_vec();
    assert_eq!(check_download(content.clone(), None).unwrap(), content);
    assert_eq!(check_download(content.clone(), Some(&FileHashes::default())).unwrap(), content);
}

#[test]
fn download_quick_xor_hash_is_compared_exactly() {
    let content = b"business file".to_vec();
    let qxh = base64_encode_qxh(quick_xor_digest(&content));
    let good = FileHashes { sha1_hash: None, quick_xor_hash: Some(qxh.clone()) };
    assert!(check_download(content.clone(), Some(&good)).is_ok());
    let bad = FileHashes { sha1_hash: None, quick_xor_hash: Some(qxh.to_lowercase()) };
    assert!(matches!(check_download(content, Some(&bad)), Err(GraphInternalError::HashMismatch)));
    assert_eq!(
        content_url(&DriveId::new("d1"), "i1"),
        "https://graph.microsoft.com/v1.0/drives/d1/items/i1/content"
    );
}

fn item(id: &str, name: &str) -> RemoteItem {
    RemoteItem {
        id: id.to_owned(),
        name: name.to_owned(),
        size: 1,
        e_tag: None,
        c_tag: None,
        last_modified_date_time: None,
        folder: None,
        file: None,
        deleted: None,
        parent_reference: None,
    }
}

#[test]
fn single_page_with_delta_token() {
    let page = delta_page_from(
        vec![item("item-1", "file1.txt")],
        None,
        Some("https://graph.example/drives/drv1/root/delta?token=cursor-abc".to_owned()),
    );
    assert_eq!(page.items.len(), 1);
    assert_eq!(page.items[0].id, "item-1");
    assert!(page.next_link.is_none());
    assert_eq!(page.delta_token.unwrap().as_str(), "cursor-abc");
}

#[test]
fn multi_page_with_next_link() {
    let page1 = delta_page_from(
        vec![item("item-1", "a.txt")],
        Some("https://graph.example/drives/drv1/root/delta?$skiptoken=skip1".to_owned()),
        None,
    );
    assert!(page1.next_link.is_some());
    assert!(page1.delta_token.is_none());
    let page2 = delta_page_from(
        vec![item("item-2", "b.txt")],
        None,
        Some("https://graph.example/drives/drv1/root/delta?token=final-cursor".to_owned()),
    );
    assert_eq!(page2.delta_token.as_ref().map(DeltaCursor::as_str), Some("final-cursor"));
}

#[test]
fn gone_410_returns_resync_required() {
    let err = check_delta_status(&reply(410, "410 Gone"), "client-rid").unwrap_err();
    assert!(matches!(err, GraphInternalError::ResyncRequired { request_id } if request_id == "client-rid"));
    assert!(check_delta_status(&reply(200, "200 OK"), "rid").is_ok());
}

#[test]
fn delta_token_extraction_decodes_and_accepts_legacy_key() {
    assert_eq!(extract_token_param("https://g.example/d?token=a%3Db").as_deref(), Some("a=b"));
    assert_eq!(extract_token_param("https://g.example/d?x=1&$deltaToken=legacy").as_deref(), Some("legacy"));
    assert_eq!(extract_token_param("https://g.example/d?x=1"), None);
    assert_eq!(extract_token_param("not a url"), None);
    let pairs = vec![("a".to_owned(), "1".to_owned()), ("token".to_owned(), "t".to_owned())];
    assert_eq!(token_from_pairs(&pairs).as_deref(), Some("t"));
    let drive = DriveId::new("drv1");
    assert_eq!(delta_url(&drive, None), "https://graph.microsoft.com/v1.0/drives/drv1/root/delta");
    let c = DeltaCursor::new("c1");
    assert_eq!(delta_url(&drive, Some(&c)), "https://graph.microsoft.com/v1.0/drives/drv1/root/delta?token=c1");
}

#[test]
fn quick_xor_hash_is_written_in_standard_base64() {
    assert_eq!(base64_encode_qxh([0u8; 20]), "AAAAAAAAAAAAAAAAAAAAAAAAAAA=");
    let mut d = [0u8; 20];
    d[0] = 0xfb;
    d[19] = 0xff;
    assert_eq!(base64_encode_qxh(d), "+wAAAAAAAAAAAAAAAAAAAAAAAP8=");
}
