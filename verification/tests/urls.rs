use onesync::urls::{encode_path, encode_segment, is_unreserved};

#[test]
fn plain_ascii_segment_is_unchanged() {
    assert_eq!(encode_segment("hello.txt"), "hello.txt");
    assert_eq!(encode_segment("Report_v2-final.pdf"), "Report_v2-final.pdf");
}

#[test]
fn segment_with_space_is_encoded() {
    assert_eq!(encode_segment("hello world.txt"), "hello%20world.txt");
}

#[test]
fn segment_with_hash_is_encoded() {
    assert_eq!(encode_segment("v1.0#draft.txt"), "v1.0%23draft.txt");
}

#[test]
fn segment_with_question_is_encoded() {
    assert_eq!(encode_segment("draft?.txt"), "draft%3F.txt");
}

#[test]
fn segment_with_percent_is_encoded() {
    assert_eq!(encode_segment("100%.txt"), "100%25.txt");
}

#[test]
fn segment_with_colon_is_encoded() {
    assert_eq!(encode_segment("time:1234.log"), "time%3A1234.log");
}

#[test]
fn segment_with_slash_is_encoded() {
    assert_eq!(encode_segment("foo/bar"), "foo%2Fbar");
}

#[test]
fn segment_with_non_ascii_is_utf8_byte_encoded() {
    assert_eq!(encode_segment("naïve.txt"), "na%C3%AFve.txt");
    assert_eq!(encode_segment("résumé.pdf"), "r%C3%A9sum%C3%A9.pdf");
}

#[test]
fn path_preserves_slashes_but_encodes_segments() {
    assert_eq!(encode_path("docs/report.pdf"), "docs/report.pdf");
    assert_eq!(encode_path("docs/hello world.txt"), "docs/hello%20world.txt");
    assert_eq!(encode_path("My Docs/2026#draft/notes.md"), "My%20Docs/2026%23draft/notes.md");
}

#[test]
fn path_handles_leading_slash() {
    assert_eq!(encode_path("/docs/report.pdf"), "/docs/report.pdf");
}

#[test]
fn path_handles_empty_string() {
    assert_eq!(encode_path(""), "");
}

#[test]
fn unreserved_set_is_exactly_rfc_3986() {
    for b in 0u8..=255 {
        let expected = b.is_ascii_alphanumeric() || b == b'-' || b == b'_' || b == b'.' || b == b'~';
        assert_eq!(is_unreserved(b), expected, "byte {b}");
    }
}

#[test]
fn path_without_slash_equals_segment_and_splits_at_slash() {
    assert_eq!(encode_path("a b#c"), encode_segment("a b#c"));
    assert_eq!(
        encode_path("x y/rest?"),
        format!("{}/{}", encode_segment("x y"), encode_path("rest?"))
    );
    assert!(!encode_segment("a/b/c").contains('/'));
}

#[test]
fn segment_length_and_fixed_points() {
    let s = "a b#c/é";
    let reserved = s.bytes().filter(|b| !is_unreserved(*b)).count();
    assert_eq!(encode_segment(s).len(), s.len() + 2 * reserved);
    assert_eq!(encode_segment("Plain-Name_1.0~x"), "Plain-Name_1.0~x");
    assert_ne!(encode_segment("a b"), "a b");
    assert_eq!(encode_path("/a b//c/"), "/a%20b//c/");
}
