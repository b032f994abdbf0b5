//! Remote drive types: Graph `driveItem`s, delta pages and opaque handles.

use vstd::prelude::*;

use crate::protocol::primitives::DeltaCursor;

verus! {

/// File hash values from the `file.hashes` facet of a `driveItem`.
#[derive(Clone, Debug, Default, PartialEq, Eq)]
pub struct FileHashes {
    /// SHA-1 hex string (Personal accounts).
    pub sha1_hash: Option<String>,
    /// `QuickXorHash` base64 string (Business accounts).
    pub quick_xor_hash: Option<String>,
}

/// File facet on a `driveItem`.
#[derive(Clone, Debug)]
pub struct FileFacet {
    pub hashes: FileHashes,
}

/// Folder facet on a `driveItem`.
#[derive(Clone, Debug)]
pub struct FolderFacet {
    pub child_count: u64,
}

/// Deleted facet: present on tombstones in delta responses.
#[derive(Clone, Debug)]
pub struct DeletedFacet {}

/// Parent reference of a `driveItem`.
#[derive(Clone, Debug)]
pub struct ParentReference {
    pub id: Option<String>,
    pub drive_id: Option<String>,
    pub path: Option<String>,
}

/// A `driveItem` from the Microsoft Graph API (possibly a delta tombstone).
#[derive(Clone, Debug)]
pub struct RemoteItem {
    pub id: String,
    pub name: String,
    pub size: u64,
    pub e_tag: Option<String>,
    pub c_tag: Option<String>,
    pub last_modified_date_time: Option<String>,
    pub folder: Option<FolderFacet>,
    pub file: Option<FileFacet>,
    pub deleted: Option<DeletedFacet>,
    pub parent_reference: Option<ParentReference>,
}

impl RemoteItem {
    /// Whether this is a tombstone (a deleted item in a delta response).
    pub fn is_deleted(&self) -> (r: bool)
        ensures
            r == self.deleted is Some,
    {
        self.deleted.is_some()
    }

    /// Whether this item is a folder.
    pub fn is_folder(&self) -> (r: bool)
        ensures
            r == self.folder is Some,
    {
        self.folder.is_some()
    }
}

/// One page of a Microsoft Graph `/delta` response.
#[derive(Debug)]
pub struct DeltaPage {
    /// Items changed since the last cursor (may include tombstones).
    pub items: Vec<RemoteItem>,
    /// If present, fetch this URL to continue paging.
    pub next_link: Option<String>,
    /// Present only on the final page: the next delta cursor.
    pub delta_token: Option<DeltaCursor>,
}

/// An issued OAuth 2.0 access token.
#[derive(Clone, Debug)]
pub struct AccessToken(pub String);

impl AccessToken {
    /// The token text.
    pub fn as_str(&self) -> (r: &str)
        ensures
            r@ == self.0@,
    {
        self.0.as_str()
    }
}

/// The `/me` profile fetched after login.
#[derive(Clone, Debug)]
pub struct AccountProfile {
    pub oid: String,
    pub upn: String,
    pub display_name: String,
    pub tenant_id: String,
    pub drive_id: String,
}

/// Stable identifier of a remote drive item.
#[derive(Clone, Debug, PartialEq, Eq, Hash)]
pub struct RemoteItemId(pub String);

impl RemoteItemId {
    /// The id text.
    pub fn as_str(&self) -> (r: &str)
        ensures
            r@ == self.0@,
    {
        self.0.as_str()
    }
}

/// The bytes of a Graph download.
pub struct RemoteReadStream(pub Vec<u8>);

/// A Graph resumable upload session handle.
#[derive(Debug)]
pub struct UploadSession {
    /// The URL to `PUT` chunks to.
    pub upload_url: String,
    /// Bytes already uploaded.
    pub bytes_uploaded: u64,
}

} // verus!

verus! {

/// The model of an optional string.
pub open spec fn opt_str(o: Option<String>) -> Option<Seq<char>> {
    match o {
        Some(s) => Some(s@),
        None => None,
    }
}

/// The model of [`FileHashes`].
pub struct FileHashesView {
    pub sha1_hash: Option<Seq<char>>,
    pub quick_xor_hash: Option<Seq<char>>,
}

impl View for FileHashes {
    type V = FileHashesView;

    open spec fn view(&self) -> FileHashesView {
        FileHashesView { sha1_hash: opt_str(self.sha1_hash), quick_xor_hash: opt_str(self.quick_xor_hash) }
    }
}

/// The model of [`ParentReference`].
pub struct ParentReferenceView {
    pub id: Option<Seq<char>>,
    pub drive_id: Option<Seq<char>>,
    pub path: Option<Seq<char>>,
}

impl View for ParentReference {
    type V = ParentReferenceView;

    open spec fn view(&self) -> ParentReferenceView {
        ParentReferenceView { id: opt_str(self.id), drive_id: opt_str(self.drive_id), path: opt_str(self.path) }
    }
}

/// The model of [`RemoteItem`]: the folder facet by its child count, the
/// file facet by its hashes, the deleted facet by its presence.
pub struct RemoteItemView {
    pub id: Seq<char>,
    pub name: Seq<char>,
    pub size: u64,
    pub e_tag: Option<Seq<char>>,
    pub c_tag: Option<Seq<char>>,
    pub last_modified_date_time: Option<Seq<char>>,
    pub folder: Option<u64>,
    pub file: Option<FileHashesView>,
    pub deleted: bool,
    pub parent_reference: Option<ParentReferenceView>,
}

impl View for RemoteItem {
    type V = RemoteItemView;

    open spec fn view(&self) -> RemoteItemView {
        RemoteItemView {
            id: self.id@,
            name: self.name@,
            size: self.size,
            e_tag: opt_str(self.e_tag),
            c_tag: opt_str(self.c_tag),
            last_modified_date_time: opt_str(self.last_modified_date_time),
            folder: match self.folder {
                Some(f) => Some(f.child_count),
                None => None,
            },
            file: match self.file {
                Some(f) => Some(f.hashes@),
                None => None,
            },
            deleted: self.deleted is Some,
            parent_reference: match self.parent_reference {
                Some(p) => Some(p@),
                None => None,
            },
        }
    }
}

/// A copy of an optional string.
pub fn copy_opt_str(o: &Option<String>) -> (r: Option<String>)
    ensures
        opt_str(r) == opt_str(*o),
{
    match o {
        Some(s) => Some(s.clone()),
        None => None,
    }
}

impl FileHashes {
    /// A copy with the same model.
    pub fn copy(&self) -> (r: FileHashes)
        ensures
            r@ == self@,
    {
        FileHashes {
            sha1_hash: copy_opt_str(&self.sha1_hash),
            quick_xor_hash: copy_opt_str(&self.quick_xor_hash),
        }
    }
}

impl ParentReference {
    /// A copy with the same model.
    pub fn copy(&self) -> (r: ParentReference)
        ensures
            r@ == self@,
    {
        ParentReference {
            id: copy_opt_str(&self.id),
            drive_id: copy_opt_str(&self.drive_id),
            path: copy_opt_str(&self.path),
        }
    }
}

impl RemoteItem {
    /// A copy with the same model.
    pub fn copy(&self) -> (r: RemoteItem)
        ensures
            r@ == self@,
    {
        RemoteItem {
            id: self.id.clone(),
            name: self.name.clone(),
            size: self.size,
            e_tag: copy_opt_str(&self.e_tag),
            c_tag: copy_opt_str(&self.c_tag),
            last_modified_date_time: copy_opt_str(&self.last_modified_date_time),
            folder: match &self.folder {
                Some(f) => Some(FolderFacet { child_count: f.child_count }),
                None => None,
            },
            file: match &self.file {
                Some(f) => Some(FileFacet { hashes: f.hashes.copy() }),
                None => None,
            },
            deleted: match &self.deleted {
                Some(_) => Some(DeletedFacet {  }),
                None => None,
            },
            parent_reference: match &self.parent_reference {
                Some(p) => Some(p.copy()),
                None => None,
            },
        }
    }
}

} // verus!
