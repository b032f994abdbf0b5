use onesync::protocol::enums::{FileKind, FileOpKind, PairStatus};
use onesync::protocol::file_side::FileSide;
use onesync::protocol::id::{AccountId, Id, IdParseError, PairId, PairTag};
use onesync::protocol::path::{AbsPath, PathParseError, RelPath};
use onesync::protocol::primitives::{ContentHash, ContentHashParseError, ETag, Timestamp};
use onesync::protocol::remote::{AccessToken, DeletedFacet, FolderFacet, RemoteItem};
use onesync::protocol::rpc::{
    JsonRpcRequest, JsonRpcResponse, APP_ERROR_BASE, INTERNAL_ERROR, INVALID_PARAMS,
    INVALID_REQUEST, METHOD_NOT_FOUND, PARSE_ERROR,
};

#[test]
fn rel_path_accepts_a_normal_relative_path() {
    let p: RelPath = "Documents/notes.md".parse().expect("parses");
    assert_eq!(p.as_str(), "Documents/notes.md");
}

#[test]
fn rel_path_rejects_leading_slash() {
    assert!("/Documents/notes.md".parse::<RelPath>().is_err());
}

#[test]
fn rel_path_rejects_dotdot() {
    assert!("Documents/../etc/passwd".parse::<RelPath>().is_err());
}

#[test]
fn rel_path_rejects_embedded_nul() {
    assert!("Documents\0/foo".parse::<RelPath>().is_err());
}

#[test]
fn rel_path_normalises_to_nfc() {
    let nfd = "caf\u{0065}\u{0301}";
    let nfc = "caf\u{00E9}";
    let p: RelPath = nfd.parse().expect("parses");
    assert_eq!(p.as_str(), nfc);
}

#[test]
fn abs_path_accepts_an_absolute_macos_path() {
    let p: AbsPath = "/Users/alice/OneDrive".parse().expect("parses");
    assert_eq!(p.as_str(), "/Users/alice/OneDrive");
}

#[test]
fn abs_path_rejects_relative() {
    assert!("Users/alice/OneDrive".parse::<AbsPath>().is_err());
}

#[test]
fn path_errors_name_the_rule_broken() {
    assert!(matches!(RelPath::parse(""), Err(PathParseError::Empty)));
    assert!(matches!(RelPath::parse("/a"), Err(PathParseError::LeadingSlash)));
    assert!(matches!(RelPath::parse("a/../b"), Err(PathParseError::ParentComponent)));
    assert!(matches!(RelPath::parse("a\0b"), Err(PathParseError::EmbeddedNul)));
    assert!(matches!(AbsPath::parse("a"), Err(PathParseError::NotAbsolute)));
    assert!(RelPath::parse("a/..b/c").is_ok());
}

#[test]
fn content_hash_accepts_64_hex_chars() {
    let h = "0".repeat(64);
    let hash: ContentHash = h.parse().expect("parses");
    assert_eq!(hash.to_string(), h);
}

#[test]
fn content_hash_rejects_non_hex_or_wrong_length() {
    assert!("xy".repeat(32).parse::<ContentHash>().is_err());
    assert!("0".repeat(63).parse::<ContentHash>().is_err());
    assert!("0".repeat(65).parse::<ContentHash>().is_err());
}

#[test]
fn content_hash_errors_and_round_trip() {
    assert_eq!(ContentHash::parse("0".repeat(63).as_str()), Err(ContentHashParseError::WrongLength { got: 63 }));
    let mut s = "a".repeat(64);
    s.replace_range(5..6, "g");
    assert_eq!(ContentHash::parse(&s), Err(ContentHashParseError::NonHex { index: 5 }));
    let mut bytes = [0u8; 32];
    for (i, b) in bytes.iter_mut().enumerate() {
        *b = (i * 37 + 11) as u8;
    }
    let h = ContentHash::from_bytes(bytes);
    let text = h.to_string();
    assert_eq!(&text[0..4], "0b30");
    let back = ContentHash::parse(&text.to_uppercase()).unwrap();
    assert_eq!(back.as_bytes(), &bytes);
}

#[test]
fn remote_item_is_deleted_tombstone() {
    let item = RemoteItem {
        id: "i1".to_owned(),
        name: "gone.txt".to_owned(),
        size: 0,
        e_tag: None,
        c_tag: None,
        last_modified_date_time: None,
        folder: None,
        file: None,
        deleted: Some(DeletedFacet {}),
        parent_reference: None,
    };
    assert!(item.is_deleted());
    assert!(!item.is_folder());
}

#[test]
fn remote_item_is_folder() {
    let item = RemoteItem {
        id: "f1".to_owned(),
        name: "Documents".to_owned(),
        size: 0,
        e_tag: None,
        c_tag: None,
        last_modified_date_time: None,
        folder: Some(FolderFacet { child_count: 3 }),
        file: None,
        deleted: None,
        parent_reference: None,
    };
    assert!(!item.is_deleted());
    assert!(item.is_folder());
}

#[test]
fn access_token_as_str_returns_inner() {
    let tok = AccessToken("bearer-xyz".to_owned());
    assert_eq!(tok.as_str(), "bearer-xyz");
}

#[test]
fn file_kind_round_trip() {
    for (v, wire) in [(FileKind::File, "file"), (FileKind::Directory, "directory")] {
        assert_eq!(v.as_wire_str(), wire);
        assert_eq!(FileKind::from_wire(wire), Some(v));
    }
}

#[test]
fn pair_status_round_trip_all_variants() {
    for (v, wire) in [
        (PairStatus::Initializing, "initializing"),
        (PairStatus::Active, "active"),
        (PairStatus::Paused, "paused"),
        (PairStatus::Errored, "errored"),
        (PairStatus::Removed, "removed"),
    ] {
        assert_eq!(v.as_wire_str(), wire);
        assert_eq!(PairStatus::from_wire(wire), Some(v));
    }
}

#[test]
fn file_op_kind_does_not_include_resolve_conflict() {
    assert!(FileOpKind::from_wire("resolve_conflict").is_none());
    assert_eq!(FileOpKind::from_wire("remote_rename"), Some(FileOpKind::RemoteRename));
}

fn side(size: u64, hash: &str, mtime_secs: i64) -> FileSide {
    FileSide {
        kind: FileKind::File,
        size_bytes: size,
        content_hash: Some(hash.parse().unwrap()),
        mtime: Timestamp::from_unix(mtime_secs, 0),
        etag: None,
        remote_item_id: None,
    }
}

#[test]
fn equality_ignores_mtime_and_etag() {
    let a = side(10, &"00".repeat(32), 100);
    let mut b = side(10, &"00".repeat(32), 9_999);
    b.etag = Some(ETag::new("etag-x"));
    assert!(a.identifies_same_content_as(&b));
}

#[test]
fn equality_diverges_when_hash_differs() {
    let a = side(10, &"00".repeat(32), 100);
    let b = side(10, &"ff".repeat(32), 100);
    assert!(!a.identifies_same_content_as(&b));
}

#[test]
fn equality_diverges_when_size_or_kind_differs() {
    let a = side(10, &"00".repeat(32), 100);
    let b = side(11, &"00".repeat(32), 100);
    assert!(!a.identifies_same_content_as(&b));
    let mut c = side(10, &"00".repeat(32), 100);
    c.kind = FileKind::Directory;
    assert!(!a.identifies_same_content_as(&c));
}

#[test]
fn it_round_trips_a_valid_id_through_string() {
    let original = "pair_01J8X7CFGMZG7Y4DC0VA8DZW2H";
    let id: Id<PairTag> = original.parse().expect("parses");
    assert_eq!(id.to_string(), original);
}

#[test]
fn it_rejects_an_id_with_the_wrong_prefix() {
    let bad = "acct_01J8X7CFGMZG7Y4DC0VA8DZW2H";
    let err = bad.parse::<Id<PairTag>>().expect_err("rejects");
    assert!(matches!(err, IdParseError::WrongPrefix { .. }));
}

#[test]
fn it_rejects_an_id_with_a_malformed_ulid_body() {
    let bad = "pair_NOTAULID0000000000000000ZZ";
    let err = bad.parse::<Id<PairTag>>().expect_err("rejects");
    assert!(matches!(err, IdParseError::MalformedUlid { .. }));
}

#[test]
fn id_without_separator_and_from_ulid() {
    assert!(matches!("pair01J8X7".parse::<PairId>(), Err(IdParseError::MissingSeparator)));
    let id = AccountId::from_ulid(1u128 << 64);
    let text = id.to_string();
    assert!(text.starts_with("acct_"));
    assert_eq!(text.len(), 5 + 26);
    let back: AccountId = text.parse().unwrap();
    assert_eq!(back.ulid(), 1u128 << 64);
}

#[test]
fn id_body_is_read_case_blind_and_printed_upper_case() {
    let lower: PairId = "pair_01j8x7cfgmzg7y4dc0va8dzw2h".parse().unwrap();
    let upper: PairId = "pair_01J8X7CFGMZG7Y4DC0VA8DZW2H".parse().unwrap();
    assert_eq!(lower.ulid(), upper.ulid());
    assert_eq!(lower.to_string(), "pair_01J8X7CFGMZG7Y4DC0VA8DZW2H");
}

#[test]
fn id_body_digits_are_five_bits_each() {
    let one: PairId = "pair_00000000000000000000000001".parse().unwrap();
    assert_eq!(one.ulid(), 1);
    let z: PairId = "pair_0000000000000000000000000Z".parse().unwrap();
    assert_eq!(z.ulid(), 31);
    let ten: PairId = "pair_00000000000000000000000010".parse().unwrap();
    assert_eq!(ten.ulid(), 32);
    let max: PairId = "pair_7ZZZZZZZZZZZZZZZZZZZZZZZZZ".parse().unwrap();
    assert_eq!(max.ulid(), u128::MAX);
    assert_eq!(max.to_string(), "pair_7ZZZZZZZZZZZZZZZZZZZZZZZZZ");
}

#[test]
fn id_body_top_digit_above_seven_loses_its_high_bits() {
    let wrapped: PairId = "pair_80000000000000000000000001".parse().unwrap();
    assert_eq!(wrapped.ulid(), 1);
    assert_eq!(wrapped.to_string(), "pair_00000000000000000000000001");
}

#[test]
fn id_body_rejects_letters_outside_the_alphabet() {
    for bad in ["pair_0000000000000000000000000I", "pair_0000000000000000000000000u", "pair_000000000000000000000000001"] {
        assert!(matches!(bad.parse::<PairId>(), Err(IdParseError::MalformedUlid { .. })));
    }
}

#[test]
fn error_codes_have_expected_values() {
    assert_eq!(PARSE_ERROR, -32_700);
    assert_eq!(INVALID_REQUEST, -32_600);
    assert_eq!(METHOD_NOT_FOUND, -32_601);
    assert_eq!(INVALID_PARAMS, -32_602);
    assert_eq!(INTERNAL_ERROR, -32_603);
    assert_eq!(APP_ERROR_BASE, -32_000);
}

#[test]
fn rpc_envelopes_carry_version_two() {
    let req = JsonRpcRequest::new(serde_json::Value::from("req-1"), "health.ping".to_owned(), serde_json::Value::Null);
    assert_eq!(req.jsonrpc, "2.0");
    assert_eq!(req.method, "health.ping");
    match JsonRpcResponse::error(None, INTERNAL_ERROR, "something went wrong".to_owned()) {
        JsonRpcResponse::Failure(e) => {
            assert_eq!(e.jsonrpc, "2.0");
            assert_eq!(e.error.code, INTERNAL_ERROR);
            assert!(e.id.is_none());
            assert!(e.error.data.is_none());
        }
        JsonRpcResponse::Success(_) => panic!("expected an error response"),
    }
    assert!(matches!(JsonRpcResponse::ok("r".to_owned(), serde_json::Value::Null), JsonRpcResponse::Success(o) if o.id == "r"));
}
