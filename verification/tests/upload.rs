use onesync::graph::error::GraphInternalError;
use onesync::graph::upload::{
    check_small_upload_size, chunks_exhausted_error, find_chunk_index, parse_range_start,
    session_create_url, small_upload_url, ChunkReply, UploadCursor, UploadStep,
    GRAPH_SMALL_UPLOAD_MAX_BYTES,
};
use onesync::protocol::primitives::DriveId;

fn hello_world() -> Vec<Vec<u8>> {
    vec![b"hello".to_vec(), b"world".to_vec()]
}

#[test]
fn rp2_f1_find_chunk_index_target_zero_returns_first_chunk() {
    assert_eq!(find_chunk_index(&hello_world(), 0), (0, 0));
}

#[test]
fn rp2_f1_find_chunk_index_within_first_chunk_returns_first_chunk() {
    assert_eq!(find_chunk_index(&hello_world(), 3), (0, 0));
}

#[test]
fn rp2_f1_find_chunk_index_at_boundary_returns_next_chunk_with_correct_start() {
    assert_eq!(find_chunk_index(&hello_world(), 5), (1, 5));
}

#[test]
fn rp2_f1_find_chunk_index_within_second_chunk_returns_second_chunk() {
    assert_eq!(find_chunk_index(&hello_world(), 7), (1, 5));
}

#[test]
fn rp2_f1_find_chunk_index_past_end_returns_len() {
    assert_eq!(find_chunk_index(&hello_world(), 10), (2, 10));
    assert_eq!(find_chunk_index(&hello_world(), 999), (2, 10));
}

#[test]
fn rp2_f1_find_chunk_index_empty_returns_zero() {
    let chunks: Vec<Vec<u8>> = Vec::new();
    assert_eq!(find_chunk_index(&chunks, 0), (0, 0));
}

#[test]
fn range_start_parses_the_number_before_the_dash() {
    assert_eq!(parse_range_start("5-"), Some(5));
    assert_eq!(parse_range_start("26-4999"), Some(26));
    assert_eq!(parse_range_start("0"), Some(0));
    assert_eq!(parse_range_start("-7"), None);
    assert_eq!(parse_range_start("x-"), None);
}

fn make_chunks(total: usize, chunk_size: usize) -> Vec<Vec<u8>> {
    let data: Vec<u8> = (0..total).map(|i| (i % 256) as u8).collect();
    data.chunks(chunk_size).map(|c| c.to_vec()).collect()
}

#[test]
fn upload_session_two_chunks_succeeds() {
    let chunks = make_chunks(10, 5);
    let mut cursor = UploadCursor::new(&chunks);
    let put = cursor.next_put(&chunks, 10).unwrap();
    assert_eq!(put.content_range, "bytes 0-4/10");
    assert_eq!(put.body, vec![0, 1, 2, 3, 4]);
    assert!(matches!(cursor.on_reply(&chunks, ChunkReply::Accepted, "r1".to_owned()), UploadStep::Continue));
    let put = cursor.next_put(&chunks, 10).unwrap();
    assert_eq!(put.content_range, "bytes 5-9/10");
    assert_eq!(put.body, vec![5, 6, 7, 8, 9]);
    assert!(matches!(cursor.on_reply(&chunks, ChunkReply::Completed, "r2".to_owned()), UploadStep::Finished));
}

#[test]
fn upload_session_416_retry_succeeds() {
    let chunks = make_chunks(10, 5);
    let mut cursor = UploadCursor::new(&chunks);
    let _ = cursor.next_put(&chunks, 10).unwrap();
    let step = cursor.on_reply(
        &chunks,
        ChunkReply::RangeNotSatisfiable { first_range: Some("3-".to_owned()) },
        "r1".to_owned(),
    );
    assert!(matches!(step, UploadStep::Continue));
    let put = cursor.next_put(&chunks, 10).unwrap();
    assert_eq!(put.content_range, "bytes 3-4/10");
    assert_eq!(put.body, vec![3, 4]);
    assert!(matches!(cursor.on_reply(&chunks, ChunkReply::Accepted, "r2".to_owned()), UploadStep::Continue));
    let put = cursor.next_put(&chunks, 10).unwrap();
    assert_eq!(put.content_range, "bytes 5-9/10");
}

#[test]
fn upload_session_416_without_range_is_invalid_range() {
    let chunks = make_chunks(10, 5);
    let mut cursor = UploadCursor::new(&chunks);
    let step = cursor.on_reply(&chunks, ChunkReply::RangeNotSatisfiable { first_range: None }, "rid".to_owned());
    match step {
        UploadStep::Failed(GraphInternalError::InvalidRange { request_id }) => assert_eq!(request_id, "rid"),
        _ => panic!("expected InvalidRange"),
    }
}

#[test]
fn upload_session_unexpected_status_is_transient() {
    let chunks = make_chunks(4, 4);
    let mut cursor = UploadCursor::new(&chunks);
    let step = cursor.on_reply(
        &chunks,
        ChunkReply::Unexpected { status: "500 Internal Server Error".to_owned(), body: "boom".to_owned() },
        "rid".to_owned(),
    );
    match step {
        UploadStep::Failed(GraphInternalError::Transient { detail, request_id }) => {
            assert_eq!(detail, "unexpected upload chunk status 500 Internal Server Error: boom");
            assert_eq!(request_id, "rid");
        }
        _ => panic!("expected Transient"),
    }
}

#[test]
fn upload_cursor_exhausts_after_last_chunk() {
    let chunks = make_chunks(3, 3);
    let mut cursor = UploadCursor::new(&chunks);
    assert!(cursor.next_put(&chunks, 3).is_some());
    assert!(matches!(cursor.on_reply(&chunks, ChunkReply::Accepted, "r".to_owned()), UploadStep::Continue));
    assert!(cursor.next_put(&chunks, 3).is_none());
    assert!(matches!(chunks_exhausted_error(), GraphInternalError::Decode { detail } if detail == "upload session completed chunks without receiving final item"));
}

#[test]
fn upload_small_too_large_returns_invalid_argument() {
    let big = (GRAPH_SMALL_UPLOAD_MAX_BYTES + 1) as usize;
    let err = check_small_upload_size(big).unwrap_err();
    match err {
        GraphInternalError::InvalidArgument { detail } => assert_eq!(
            detail,
            format!("payload {big} bytes exceeds small-upload limit of {GRAPH_SMALL_UPLOAD_MAX_BYTES}")
        ),
        _ => panic!("expected InvalidArgument"),
    }
    assert!(check_small_upload_size(GRAPH_SMALL_UPLOAD_MAX_BYTES as usize).is_ok());
}

#[test]
fn upload_urls() {
    let drive = DriveId::new("drv1");
    assert_eq!(
        small_upload_url(&drive, "parent-id", "a b#?.txt"),
        "https://graph.microsoft.com/v1.0/drives/drv1/items/parent-id:/a%20b%23%3F.txt:/content?@microsoft.graph.conflictBehavior=replace"
    );
    assert_eq!(
        session_create_url(&drive, "par#ent", "a b.txt"),
        "https://graph.microsoft.com/v1.0/drives/drv1/items/par%23ent:/a%20b.txt:/createUploadSession"
    );
}
