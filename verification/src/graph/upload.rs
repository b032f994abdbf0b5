//! Uploads: the size limit and URL of a simple (single `PUT`) upload, and
//! resumable upload sessions: chunk bookkeeping, `Content-Range` construction
//! and the decision taken on each chunk reply (including the 416 resume path).
//!
//! The HTTP exchange itself is driven by the caller: it asks [`UploadCursor::next_put`]
//! what to send, performs the `PUT`, and hands the classified reply back to
//! [`UploadCursor::on_reply`].

use vstd::prelude::*;

use crate::graph::error::{GraphInternalError, GraphInternalErrorView};
use crate::protocol::primitives::DriveId;
use crate::text::{decimal, parse_u64, parse_u64_spec, push_char, push_decimal, u64_to_string};
use crate::urls::{encode_bytes, encode_segment, GRAPH_BASE};
use vstd::string::StringSliceAdditionalSpecFns;
use vstd::utf8::encode_utf8;

verus! {

/// The bytes of all chunks, in order.
pub open spec fn concat_chunks(cs: Seq<Seq<u8>>) -> Seq<u8>
    decreases cs.len(),
{
    if cs.len() == 0 {
        Seq::empty()
    } else {
        concat_chunks(cs.drop_last()) + cs.last()
    }
}

/// Absolute offset of the first byte of chunk `i`.
pub open spec fn chunk_offset(cs: Seq<Seq<u8>>, i: int) -> nat {
    concat_chunks(cs.take(i)).len()
}

/// Index of the first chunk whose byte range `[start, start + len)` contains
/// `target`, or `cs.len()` when `target` lies past the last byte.
pub open spec fn containing_chunk(cs: Seq<Seq<u8>>, target: int) -> int
    decreases cs.len(),
{
    if cs.len() == 0 {
        0
    } else if target < cs[0].len() {
        0
    } else {
        1 + containing_chunk(cs.drop_first(), target - cs[0].len())
    }
}

pub proof fn lemma_concat_take_step(cs: Seq<Seq<u8>>, i: int)
    requires
        0 <= i < cs.len(),
    ensures
        concat_chunks(cs.take(i + 1)) == concat_chunks(cs.take(i)) + cs[i],
{
    assert(cs.take(i + 1).drop_last() =~= cs.take(i));
}

pub proof fn lemma_concat_full(cs: Seq<Seq<u8>>)
    ensures
        concat_chunks(cs.take(cs.len() as int)) == concat_chunks(cs),
{
    assert(cs.take(cs.len() as int) =~= cs);
}

/// Offsets grow with the chunk index.
pub proof fn lemma_offset_monotone(cs: Seq<Seq<u8>>, i: int, j: int)
    requires
        0 <= i <= j <= cs.len(),
    ensures
        chunk_offset(cs, i) <= chunk_offset(cs, j),
    decreases j - i,
{
    if i < j {
        lemma_offset_monotone(cs, i, j - 1);
        lemma_concat_take_step(cs, j - 1);
    }
}

/// The bytes of chunk `i` sit at `chunk_offset(cs, i)` in the concatenation.
pub proof fn lemma_chunk_in_concat(cs: Seq<Seq<u8>>, i: int)
    requires
        0 <= i < cs.len(),
    ensures
        chunk_offset(cs, i) + cs[i].len() <= concat_chunks(cs).len(),
        concat_chunks(cs).subrange(chunk_offset(cs, i) as int, (chunk_offset(cs, i) + cs[i].len()) as int)
            == cs[i],
    decreases cs.len(),
{
    if i == cs.len() - 1 {
        assert(cs.take(i) =~= cs.drop_last());
    } else {
        lemma_chunk_in_concat(cs.drop_last(), i);
        assert(cs.drop_last().take(i) =~= cs.take(i));
        let a = concat_chunks(cs.drop_last());
        assert(concat_chunks(cs) == a + cs.last());
        assert(concat_chunks(cs).subrange(chunk_offset(cs, i) as int, (chunk_offset(cs, i) + cs[i].len()) as int)
            =~= a.subrange(chunk_offset(cs, i) as int, (chunk_offset(cs, i) + cs[i].len()) as int));
    }
}

/// `find_chunk_index`'s result: the containing chunk and its start offset.
pub open spec fn chunk_position(cs: Seq<Seq<u8>>, target: int, r: (usize, u64)) -> bool {
    &&& r.0 as int <= cs.len()
    &&& r.1 as int == chunk_offset(cs, r.0 as int)
    &&& (r.0 < cs.len() ==> r.1 <= target < r.1 + cs[r.0 as int].len())
    &&& (r.0 == cs.len() ==> target >= concat_chunks(cs).len())
    &&& forall|j: int| 0 <= j < r.0 ==> target >= #[trigger] chunk_offset(cs, j + 1)
}

/// Finds the chunk whose half-open byte range `[start, start + len)` contains
/// `target_offset` and returns `(index, start)`; past the last byte it returns
/// `(chunks.len(), total_length)`.
pub fn find_chunk_index(chunks: &[Vec<u8>], target_offset: u64) -> (r: (usize, u64))
    requires
        concat_chunks(chunks.deep_view()).len() <= u64::MAX,
    ensures
        chunk_position(chunks.deep_view(), target_offset as int, r),
        r.0 as int == containing_chunk(chunks.deep_view(), target_offset as int),
{
    let ghost cs = chunks.deep_view();
    let mut cum_off: u64 = 0;
    let n = chunks.len();
    proof {
        assert(cs.skip(0) =~= cs);
        assert(cs.take(0) =~= Seq::<Seq<u8>>::empty());
    }
    for i in 0..n
        invariant
            n == cs.len(),
            cum_off <= target_offset,
            cs == chunks.deep_view(),
            concat_chunks(cs).len() <= u64::MAX,
            cum_off as int == chunk_offset(cs, i as int),
            forall|j: int| 0 <= j < i ==> target_offset >= #[trigger] chunk_offset(cs, j + 1),
            containing_chunk(cs, target_offset as int) == i + containing_chunk(
                cs.skip(i as int),
                target_offset - cum_off,
            ),
    {
        let chunk_len = chunks[i].len() as u64;
        proof {
            assert(chunks[i as int]@ == cs[i as int]);
            lemma_concat_take_step(cs, i as int);
            lemma_chunk_in_concat(cs, i as int);
            assert(cs.skip(i as int)[0] == cs[i as int]);
            assert(cs.skip(i as int).drop_first() =~= cs.skip(i + 1));
        }
        if target_offset < cum_off + chunk_len {
            return (i, cum_off);
        }
        cum_off = cum_off + chunk_len;
    }
    proof {
        lemma_concat_full(cs);
        assert(cs.skip(n as int).len() == 0);
    }
    (n, cum_off)
}

/// Start offset named by a `nextExpectedRanges` entry (`"start-"` or `"start-end"`).
pub open spec fn range_start_spec(range: Seq<u8>) -> Option<u64> {
    let dash = range.index_of_first(45u8);
    match dash {
        Some(k) => parse_u64_spec(range.take(k)),
        None => parse_u64_spec(range),
    }
}

/// Parses the start offset of a `nextExpectedRanges` entry: the text before the
/// first `-`, read as a `u64`.
pub fn parse_range_start(range_str: &str) -> (r: Option<u64>)
    ensures
        r == range_start_spec(range_str.spec_bytes()),
{
    let b = range_str.as_bytes();
    let n = b.len();
    let mut k: usize = 0;
    while k < n && b[k] != 45
        invariant
            k <= n,
            n == b@.len(),
            forall|j: int| 0 <= j < k ==> b@[j] != 45u8,
        decreases n - k,
    {
        k = k + 1;
    }
    let mut head: Vec<u8> = Vec::new();
    for j in 0..k
        invariant
            k <= n,
            n == b@.len(),
            head@ == b@.take(j as int),
    {
        head.push(b[j]);
        proof {
            assert(b@.take(j + 1) =~= b@.take(j as int).push(b@[j as int]));
        }
    }
    proof {
        b@.index_of_first_ensures(45u8);
        if k < n {
            assert(b@.index_of_first(45u8) == Some(k as int)) by {
                assert(b@[k as int] == 45u8);
                assert(b@.contains(45u8));
            }
        } else {
            assert(head@ =~= b@);
            assert(!b@.contains(45u8));
        }
    }
    parse_u64(head.as_slice())
}

/// `"bytes {start}-{end}/{total}"`.
pub open spec fn content_range_spec(start: nat, end: nat, total: nat) -> Seq<char> {
    "bytes "@ + decimal(start) + "-"@ + decimal(end) + "/"@ + decimal(total)
}

/// One chunk `PUT` to issue: its `Content-Range` header value and body.
pub struct ChunkPut {
    pub content_range: String,
    pub body: Vec<u8>,
}

/// How the server answered a chunk `PUT`.
pub enum ChunkReply {
    /// 416: the caller re-queried the session; the first `nextExpectedRanges` entry, if any.
    RangeNotSatisfiable { first_range: Option<String> },
    /// 202: the slice was accepted, more is expected.
    Accepted,
    /// 200 / 201: the final chunk was accepted; the body carries the item.
    Completed,
    /// Any other status, with its display text and the response body.
    Unexpected { status: String, body: String },
}

/// What the caller does next.
pub enum UploadStep {
    /// Ask [`UploadCursor::next_put`] for the next chunk.
    Continue,
    /// The upload finished; decode the item from the reply body.
    Finished,
    /// The upload failed.
    Failed(GraphInternalError),
}

/// Position of a resumable upload: the next byte to send and the chunk holding it.
pub struct UploadCursor {
    pub offset: u64,
    pub chunk_index: usize,
    pub chunk_start: u64,
}

impl UploadCursor {
    /// The cursor is consistent with the chunk list.
    pub open spec fn wf(&self, cs: Seq<Seq<u8>>) -> bool {
        &&& concat_chunks(cs).len() <= u64::MAX
        &&& self.chunk_index <= cs.len()
        &&& self.chunk_start as int == chunk_offset(cs, self.chunk_index as int)
        &&& self.chunk_index < cs.len() ==> {
            &&& self.chunk_start <= self.offset
            &&& (self.offset < self.chunk_start + cs[self.chunk_index as int].len() || self.offset
                == self.chunk_start)
            &&& (cs[self.chunk_index as int].len() == 0 ==> self.offset > 0)
        }
    }

    /// A fresh upload starts at byte 0 of chunk 0.
    pub fn new(chunks: &[Vec<u8>]) -> (c: UploadCursor)
        requires
            concat_chunks(chunks.deep_view()).len() <= u64::MAX,
            chunks.deep_view().len() > 0 ==> chunks.deep_view()[0].len() > 0,
        ensures
            c.offset == 0 && c.chunk_index == 0 && c.chunk_start == 0,
            c.wf(chunks.deep_view()),
    {
        proof {
            assert(chunks.deep_view().take(0) =~= Seq::<Seq<u8>>::empty());
        }
        UploadCursor { offset: 0, chunk_index: 0, chunk_start: 0 }
    }

    /// The next chunk `PUT`: the unsent tail of the current chunk, with a
    /// `Content-Range` naming exactly the absolute bytes it carries.
    /// `None` once every chunk has been consumed.
    pub fn next_put(&self, chunks: &[Vec<u8>], total_size: u64) -> (r: Option<ChunkPut>)
        requires
            self.wf(chunks.deep_view()),
        ensures
            r is None <==> self.chunk_index >= chunks.deep_view().len(),
            r matches Some(p) ==> {
                let cs = chunks.deep_view();
                let len = p.body@.len();
                &&& p.body@ == cs[self.chunk_index as int].subrange(
                    self.offset - self.chunk_start,
                    cs[self.chunk_index as int].len() as int,
                )
                &&& self.offset + len <= concat_chunks(cs).len()
                &&& p.body@ == concat_chunks(cs).subrange(self.offset as int, self.offset + len)
                &&& self.offset + len >= 1
                &&& p.content_range@ == content_range_spec(
                    self.offset as nat,
                    (self.offset + len - 1) as nat,
                    total_size as nat,
                )
            },
    {
        let ghost cs = chunks.deep_view();
        if self.chunk_index >= chunks.len() {
            return None;
        }
        let chunk = &chunks[self.chunk_index];
        proof {
            assert(chunk@ == cs[self.chunk_index as int]);
            lemma_chunk_in_concat(cs, self.chunk_index as int);
        }
        let slice_start = (self.offset - self.chunk_start) as usize;
        let mut body: Vec<u8> = Vec::new();
        let clen = chunk.len();
        let mut j = slice_start;
        while j < clen
            invariant
                slice_start <= j <= clen,
                clen == chunk@.len(),
                body@ == chunk@.subrange(slice_start as int, j as int),
            decreases clen - j,
        {
            body.push(chunk[j]);
            proof {
                assert(chunk@.subrange(slice_start as int, j + 1) =~= chunk@.subrange(
                    slice_start as int,
                    j as int,
                ).push(chunk@[j as int]));
            }
            j = j + 1;
        }
        let chunk_len = (clen - slice_start) as u64;
        let end = self.offset + chunk_len - 1;
        proof {
            let base = chunk_offset(cs, self.chunk_index as int) as int;
            let whole = concat_chunks(cs);
            assert(whole.subrange(self.offset as int, self.offset + chunk_len) =~= whole.subrange(
                base,
                base + chunk@.len(),
            ).subrange(self.offset - base, chunk@.len() as int));
        }
        let mut content_range = String::from_str("bytes ");
        push_decimal(&mut content_range, self.offset);
        push_char(&mut content_range, '-');
        push_decimal(&mut content_range, end);
        push_char(&mut content_range, '/');
        push_decimal(&mut content_range, total_size);
        proof {
            reveal_strlit("bytes ");
            reveal_strlit("-");
            reveal_strlit("/");
            assert(content_range@ =~= content_range_spec(
                self.offset as nat,
                end as nat,
                total_size as nat,
            ));
        }
        Some(ChunkPut { content_range, body })
    }

    /// Advances the cursor on the server's reply to the chunk just sent.
    ///
    /// - 416 with a parsable first expected range: resume at that offset, in the
    ///   chunk containing it; without one: `InvalidRange`.
    /// - 202: move past the bytes sent, to the start of the next chunk.
    /// - 200 / 201: finished.
    /// - anything else: a transient error naming the status and body.
    pub fn on_reply(&mut self, chunks: &[Vec<u8>], reply: ChunkReply, chunk_request_id: String) -> (r:
        UploadStep)
        requires
            old(self).wf(chunks.deep_view()),
            old(self).chunk_index < chunks.deep_view().len(),
        ensures
            final(self).wf(chunks.deep_view()),
            reply_outcome(*old(self), *final(self), chunks.deep_view(), reply, chunk_request_id@, r),
    {
        let ghost cs = chunks.deep_view();
        match reply {
            ChunkReply::RangeNotSatisfiable { first_range } => {
                if let Some(fr) = first_range {
                    if let Some(new_offset) = parse_range_start(fr.as_str()) {
                        let (idx, start) = find_chunk_index(chunks, new_offset);
                        proof {
                            lemma_position_wf(cs, new_offset, idx, start);
                        }
                        self.offset = new_offset;
                        self.chunk_index = idx;
                        self.chunk_start = start;
                        return UploadStep::Continue;
                    }
                }
                UploadStep::Failed(GraphInternalError::InvalidRange { request_id: chunk_request_id })
            },
            ChunkReply::Accepted => {
                let clen = chunks[self.chunk_index].len() as u64;
                proof {
                    assert(chunks[self.chunk_index as int]@ == cs[self.chunk_index as int]);
                    lemma_chunk_in_concat(cs, self.chunk_index as int);
                    lemma_concat_take_step(cs, self.chunk_index as int);
                }
                let next = self.chunk_start + clen;
                self.offset = next;
                self.chunk_index = self.chunk_index + 1;
                self.chunk_start = next;
                proof {
                    if self.chunk_index < cs.len() && cs[self.chunk_index as int].len() == 0 {
                        // the offset only stays at zero when every chunk so far was empty,
                        // which the cursor's invariant excludes for the chunk just sent
                        assert(next > 0);
                    }
                }
                UploadStep::Continue
            },
            ChunkReply::Completed => UploadStep::Finished,
            ChunkReply::Unexpected { status, body } => {
                let detail = String::from_str("unexpected upload chunk status ").concat(
                    status.as_str(),
                ).concat(": ").concat(body.as_str());
                UploadStep::Failed(
                    GraphInternalError::Transient { detail, request_id: chunk_request_id },
                )
            },
        }
    }
}

/// A position returned by [`find_chunk_index`] is a consistent resume point.
proof fn lemma_position_wf(cs: Seq<Seq<u8>>, target: u64, idx: usize, start: u64)
    requires
        concat_chunks(cs).len() <= u64::MAX,
        chunk_position(cs, target as int, (idx, start)),
    ensures
        (UploadCursor { offset: target, chunk_index: idx, chunk_start: start }).wf(cs),
{
}

/// The decision [`UploadCursor::on_reply`] takes, as a relation between the
/// cursor before and after and the step returned.
pub open spec fn reply_outcome(
    before: UploadCursor,
    after: UploadCursor,
    cs: Seq<Seq<u8>>,
    reply: ChunkReply,
    request_id: Seq<char>,
    r: UploadStep,
) -> bool {
    match reply {
        ChunkReply::RangeNotSatisfiable { first_range } => {
            let resume = match first_range {
                Some(fr) => range_start_spec(encode_utf8(fr@)),
                None => None,
            };
            match resume {
                Some(o) => {
                    &&& r is Continue
                    &&& after.offset == o
                    &&& after.chunk_index as int == containing_chunk(cs, o as int)
                    &&& chunk_position(cs, o as int, (after.chunk_index, after.chunk_start))
                },
                None => {
                    &&& r matches UploadStep::Failed(e) && e@ == (GraphInternalErrorView::InvalidRange {
                        request_id,
                    })
                    &&& after == before
                },
            }
        },
        ChunkReply::Accepted => {
            &&& r is Continue
            &&& after.chunk_index == before.chunk_index + 1
            &&& after.offset == after.chunk_start
            &&& after.offset as int == chunk_offset(cs, before.chunk_index + 1)
        },
        ChunkReply::Completed => r is Finished && after == before,
        ChunkReply::Unexpected { status, body } => {
            &&& r matches UploadStep::Failed(e) && e@ == (GraphInternalErrorView::Transient {
                detail: "unexpected upload chunk status "@ + status@ + ": "@ + body@,
                request_id,
            })
            &&& after == before
        },
    }
}

} // verus!

verus! {

/// Largest payload sent in one simple-upload `PUT`.
pub const GRAPH_SMALL_UPLOAD_MAX_BYTES: u64 = 4194304;

/// The error for a payload over the simple-upload limit.
pub open spec fn too_large_for_small(len: nat) -> GraphInternalErrorView {
    GraphInternalErrorView::InvalidArgument {
        detail: "payload "@ + decimal(len) + " bytes exceeds small-upload limit of "@ + decimal(
            GRAPH_SMALL_UPLOAD_MAX_BYTES as nat,
        ),
    }
}

/// Refuses a simple upload of `len` bytes over [`GRAPH_SMALL_UPLOAD_MAX_BYTES`].
pub fn check_small_upload_size(len: usize) -> (r: Result<(), GraphInternalError>)
    ensures
        len <= GRAPH_SMALL_UPLOAD_MAX_BYTES ==> r is Ok,
        len > GRAPH_SMALL_UPLOAD_MAX_BYTES ==> (r matches Err(e) && e@ == too_large_for_small(len as nat)),
{
    let n = len as u64;
    if n > GRAPH_SMALL_UPLOAD_MAX_BYTES {
        let detail = String::from_str("payload ").concat(u64_to_string(n).as_str()).concat(
            " bytes exceeds small-upload limit of ",
        ).concat(u64_to_string(GRAPH_SMALL_UPLOAD_MAX_BYTES).as_str());
        return Err(GraphInternalError::InvalidArgument { detail });
    }
    Ok(())
}

/// The simple-upload URL of `name` under `parent_item_id`, replacing an
/// existing file of that name; both are percent-encoded as path segments.
pub fn small_upload_url(drive_id: &DriveId, parent_item_id: &str, name: &str) -> (u: String)
    ensures
        u@ == GRAPH_BASE@ + "/drives/"@ + drive_id.0@ + "/items/"@ + encode_bytes(
            parent_item_id.spec_bytes(),
            false,
        ) + ":/"@ + encode_bytes(name.spec_bytes(), false)
            + ":/content?@microsoft.graph.conflictBehavior=replace"@,
{
    let name_enc = encode_segment(name);
    let parent_enc = encode_segment(parent_item_id);
    String::from_str(GRAPH_BASE).concat("/drives/").concat(drive_id.as_str()).concat("/items/").concat(
        parent_enc.as_str(),
    ).concat(":/").concat(name_enc.as_str()).concat(":/content?@microsoft.graph.conflictBehavior=replace")
}

/// The URL that creates an upload session for `name` under
/// `parent_item_id`; both are percent-encoded as path segments.
pub fn session_create_url(drive_id: &DriveId, parent_item_id: &str, name: &str) -> (u: String)
    ensures
        u@ == GRAPH_BASE@ + "/drives/"@ + drive_id.0@ + "/items/"@ + encode_bytes(
            parent_item_id.spec_bytes(),
            false,
        ) + ":/"@ + encode_bytes(name.spec_bytes(), false) + ":/createUploadSession"@,
{
    let name_enc = encode_segment(name);
    let parent_enc = encode_segment(parent_item_id);
    String::from_str(GRAPH_BASE).concat("/drives/").concat(drive_id.as_str()).concat("/items/").concat(
        parent_enc.as_str(),
    ).concat(":/").concat(name_enc.as_str()).concat(":/createUploadSession")
}

/// The error when every chunk was sent and no reply carried the item.
pub fn chunks_exhausted_error() -> (e: GraphInternalError)
    ensures
        e@ == (GraphInternalErrorView::Decode {
            detail: "upload session completed chunks without receiving final item"@,
        }),
{
    GraphInternalError::Decode {
        detail: String::from_str("upload session completed chunks without receiving final item"),
    }
}

/// The error when the final reply does not decode as an item: the parser's
/// message and the body.
pub fn final_reply_error(message: &str, body: &str) -> (e: GraphInternalError)
    ensures
        e@ == (GraphInternalErrorView::Decode {
            detail: "final upload response parse failed: "@ + message@ + ": "@ + body@,
        }),
{
    GraphInternalError::Decode {
        detail: String::from_str("final upload response parse failed: ").concat(message).concat(": ").concat(
            body,
        ),
    }
}

} // verus!

verus! {

/// The error when the session state fetched after a `416` does not decode.
pub fn requery_error(message: &str) -> (e: GraphInternalError)
    ensures
        e@ == (GraphInternalErrorView::Decode { detail: "416 session re-query parse failed: "@ + message@ }),
{
    GraphInternalError::Decode { detail: String::from_str("416 session re-query parse failed: ").concat(message) }
}

} // verus!

verus! {

/// How many bytes the put at cursor `c` carries: the unsent tail of its chunk.
pub open spec fn put_len(c: UploadCursor, cs: Seq<Seq<u8>>) -> int {
    cs[c.chunk_index as int].len() - (c.offset - c.chunk_start)
}

/// After a put is accepted, the next put starts right after the bytes it
/// carried, so a run of accepted puts sends the upload's bytes in order,
/// without gap or overlap.
pub proof fn law_accepted_put_is_followed_by_the_next_bytes(
    cs: Seq<Seq<u8>>,
    before: UploadCursor,
    after: UploadCursor,
    request_id: Seq<char>,
)
    requires
        before.wf(cs),
        before.chunk_index < cs.len(),
        reply_outcome(before, after, cs, ChunkReply::Accepted, request_id, UploadStep::Continue),
    ensures
        after.offset == before.offset + put_len(before, cs),
        after.chunk_index == before.chunk_index + 1,
{
    lemma_concat_take_step(cs, before.chunk_index as int);
}

} // verus!
