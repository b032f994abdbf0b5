//! Snapshot of one side's view of a file at a point in time.

use vstd::prelude::*;

use crate::protocol::enums::FileKind;
use crate::protocol::primitives::{ContentHash, DriveItemId, ETag, Timestamp};

verus! {

/// Snapshot of one side's (local or remote) view of a file or directory.
#[derive(Clone, Debug)]
pub struct FileSide {
    /// Regular file or directory.
    pub kind: FileKind,
    /// Size of the content in bytes (0 for directories).
    pub size_bytes: u64,
    /// BLAKE3 content hash; absent for directories or when not yet computed.
    pub content_hash: Option<ContentHash>,
    /// Last-modified time reported by the owning side.
    pub mtime: Timestamp,
    /// `OneDrive` ETag/cTag; remote side only.
    pub etag: Option<ETag>,
    /// `OneDrive` driveItem id; remote side only.
    pub remote_item_id: Option<DriveItemId>,
}

/// The digest bytes of an optional hash.
pub open spec fn hash_bytes(h: Option<ContentHash>) -> Option<Seq<u8>> {
    match h {
        Some(c) => Some(c.0@),
        None => None,
    }
}

/// Content equality: kind, size and hash agree; times and tags are metadata.
pub open spec fn same_content(a: FileSide, b: FileSide) -> bool {
    a.kind == b.kind && a.size_bytes == b.size_bytes && hash_bytes(a.content_hash) == hash_bytes(
        b.content_hash,
    )
}

impl FileSide {
    /// Whether both snapshots describe the same content: `kind`, `size_bytes`
    /// and `content_hash` match; `mtime`, `etag` and the item id are ignored.
    pub fn identifies_same_content_as(&self, other: &FileSide) -> (r: bool)
        ensures
            r == same_content(*self, *other),
    {
        if self.kind != other.kind || self.size_bytes != other.size_bytes {
            return false;
        }
        match (&self.content_hash, &other.content_hash) {
            (None, None) => true,
            (Some(a), Some(b)) => {
                let mut i: usize = 0;
                while i < 32
                    invariant
                        i <= 32,
                        a.0@.len() == 32,
                        b.0@.len() == 32,
                        self.content_hash == Some(*a),
                        other.content_hash == Some(*b),
                        self.kind == other.kind,
                        self.size_bytes == other.size_bytes,
                        forall|j: int| 0 <= j < i ==> a.0@[j] == b.0@[j],
                    decreases 32 - i,
                {
                    if a.0[i] != b.0[i] {
                        proof {
                            assert(a.0@[i as int] != b.0@[i as int]);
                            assert(a.0@ != b.0@);
                            assert(hash_bytes(self.content_hash) == Some(a.0@));
                            assert(hash_bytes(other.content_hash) == Some(b.0@));
                        }
                        return false;
                    }
                    i = i + 1;
                }
                proof {
                    assert(a.0@ =~= b.0@);
                }
                true
            },
            _ => false,
        }
    }
}

/// Content equality is an equivalence: reflexive, symmetric and transitive.
pub proof fn lemma_same_content_equivalence(a: FileSide, b: FileSide, c: FileSide)
    ensures
        same_content(a, a),
        same_content(a, b) ==> same_content(b, a),
        same_content(a, b) && same_content(b, c) ==> same_content(a, c),
{
}

/// Changing only the metadata (`mtime`, `etag`, item id) keeps the content equal.
pub proof fn lemma_same_content_ignores_metadata(
    a: FileSide,
    mtime: Timestamp,
    etag: Option<ETag>,
    id: Option<DriveItemId>,
)
    ensures
        same_content(a, FileSide { mtime, etag, remote_item_id: id, ..a }),
{
}

} // verus!
