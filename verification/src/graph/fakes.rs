//! An in-memory drive that follows the behavioural contract of the Graph
//! adapter, for engine tests.
//!
//! Items are kept by id (ids are unique), each stamped with the generation at
//! which it last changed. The generation counter rises by one on every upload,
//! rename and folder creation; a delta cursor is `cursor-gen-N` for the
//! generation `N` at which it was handed out, and a delta since a cursor lists
//! the items stamped later.
//!
//! The items sit in a `Vec` rather than a map keyed by id: a delta walks every
//! item, and vstd's `StringHashMap` offers lookup by key but no way to walk its
//! entries, while a `HashMap` would walk them in an order that differs from run
//! to run. The `Vec` keeps the order in which items were created, and the
//! drive's well-formedness states what the map gave for free: no id occurs
//! twice.

use vstd::prelude::*;

use crate::graph::codec::{sha1_digest, sha1_spec};
use crate::graph::error::{map_to_port, port_error, GraphError, GraphInternalError, GraphInternalErrorView};
use crate::protocol::primitives::DeltaCursor;
use crate::protocol::remote::{
    AccountProfile, DeltaPage, FileFacet, FileHashes, FileHashesView, FolderFacet, RemoteItem,
    RemoteItemId, RemoteItemView, RemoteReadStream, UploadSession,
};
use crate::text::{decimal, hex_encode, hex_lower_of, parse_u64, parse_u64_spec, str_chars, str_equal, u64_to_string};
use vstd::utf8::encode_utf8;

verus! {

/// An item stored in the fake drive.
#[derive(Clone, Debug)]
pub struct FakeItem {
    /// The graph metadata for the item.
    pub meta: RemoteItem,
    /// Stored file bytes (`None` for folders).
    pub bytes: Option<Vec<u8>>,
    /// The generation at which this item was last modified.
    pub generation: u64,
}

/// The model of a [`FakeItem`].
pub struct FakeItemView {
    pub meta: RemoteItemView,
    pub bytes: Option<Seq<u8>>,
    pub generation: u64,
}

impl View for FakeItem {
    type V = FakeItemView;

    open spec fn view(&self) -> FakeItemView {
        FakeItemView {
            meta: self.meta@,
            bytes: match self.bytes {
                Some(b) => Some(b@),
                None => None,
            },
            generation: self.generation,
        }
    }
}

/// In-memory drive.
pub struct FakeRemoteDrive {
    items: Vec<FakeItem>,
    generation: u64,
}

/// The model of a [`FakeRemoteDrive`]: its items in storage order and the
/// generation counter.
pub struct FakeDriveView {
    pub items: Seq<FakeItemView>,
    pub generation: u64,
}

impl View for FakeRemoteDrive {
    type V = FakeDriveView;

    closed spec fn view(&self) -> FakeDriveView {
        FakeDriveView { items: self.items@.map_values(|f: FakeItem| f@), generation: self.generation }
    }
}

/// No two items share an id.
pub open spec fn ids_unique(items: Seq<FakeItemView>) -> bool {
    forall|i: int, j: int|
        0 <= i < items.len() && 0 <= j < items.len() && i != j ==> #[trigger] items[i].meta.id
            != #[trigger] items[j].meta.id
}

/// No item is stamped after generation `g`.
pub open spec fn stamped_by(items: Seq<FakeItemView>, g: u64) -> bool {
    forall|i: int| 0 <= i < items.len() ==> (#[trigger] items[i]).generation <= g
}

/// Whether an item with `id` is stored.
pub open spec fn has_id(items: Seq<FakeItemView>, id: Seq<char>) -> bool {
    exists|i: int| 0 <= i < items.len() && #[trigger] items[i].meta.id == id
}

/// The position of the item with `id` (meaningful when [`has_id`]).
pub open spec fn index_of_id(items: Seq<FakeItemView>, id: Seq<char>) -> int {
    choose|i: int| 0 <= i < items.len() && #[trigger] items[i].meta.id == id
}

/// The item stored under `id`.
pub open spec fn lookup(items: Seq<FakeItemView>, id: Seq<char>) -> Option<FakeItemView> {
    if has_id(items, id) {
        Some(items[index_of_id(items, id)])
    } else {
        None
    }
}

/// Storing `it`: it replaces the item with its id, or is appended.
pub open spec fn put_spec(items: Seq<FakeItemView>, it: FakeItemView) -> Seq<FakeItemView> {
    if has_id(items, it.meta.id) {
        items.update(index_of_id(items, it.meta.id), it)
    } else {
        items.push(it)
    }
}

/// With unique ids, the item at position `i` is the one found under its id.
pub proof fn lemma_lookup_at(items: Seq<FakeItemView>, i: int)
    requires
        ids_unique(items),
        0 <= i < items.len(),
    ensures
        has_id(items, items[i].meta.id),
        index_of_id(items, items[i].meta.id) == i,
        lookup(items, items[i].meta.id) == Some(items[i]),
{
    let id = items[i].meta.id;
    assert(items[i].meta.id == id);
    let j = index_of_id(items, id);
    assert(items[j].meta.id == id);
}

/// Storing an item keeps ids unique, makes it the item under its id, and
/// leaves every other id's item as it was.
pub proof fn lemma_put(items: Seq<FakeItemView>, it: FakeItemView)
    requires
        ids_unique(items),
    ensures
        ids_unique(put_spec(items, it)),
        lookup(put_spec(items, it), it.meta.id) == Some(it),
        forall|k: Seq<char>| k != it.meta.id ==> #[trigger] lookup(put_spec(items, it), k) == lookup(items, k),
{
    let out = put_spec(items, it);
    if has_id(items, it.meta.id) {
        let i = index_of_id(items, it.meta.id);
        assert(items[i].meta.id == it.meta.id);
        assert(out[i] == it);
        assert(ids_unique(out));
        lemma_lookup_at(out, i);
        assert forall|k: Seq<char>| k != it.meta.id implies #[trigger] lookup(out, k) == lookup(items, k) by {
            if has_id(items, k) {
                let j = index_of_id(items, k);
                assert(items[j].meta.id == k);
                assert(j != i);
                assert(out[j] == items[j]);
                lemma_lookup_at(items, j);
                lemma_lookup_at(out, j);
            } else {
                if has_id(out, k) {
                    let j = index_of_id(out, k);
                    assert(out[j].meta.id == k);
                    assert(items[j].meta.id == k);
                }
            }
        }
    } else {
        let n = items.len() as int;
        assert(out[n] == it);
        assert forall|a: int, b: int|
            0 <= a < out.len() && 0 <= b < out.len() && a != b implies #[trigger] out[a].meta.id
            != #[trigger] out[b].meta.id by {
            if a == n {
                assert(out[b] == items[b]);
                assert(items[b].meta.id == out[b].meta.id);
            } else if b == n {
                assert(out[a] == items[a]);
                assert(items[a].meta.id == out[a].meta.id);
            } else {
                assert(out[a] == items[a]);
                assert(out[b] == items[b]);
            }
        }
        lemma_lookup_at(out, n);
        assert forall|k: Seq<char>| k != it.meta.id implies #[trigger] lookup(out, k) == lookup(items, k) by {
            if has_id(items, k) {
                let j = index_of_id(items, k);
                assert(items[j].meta.id == k);
                assert(out[j] == items[j]);
                lemma_lookup_at(items, j);
                lemma_lookup_at(out, j);
            } else {
                if has_id(out, k) {
                    let j = index_of_id(out, k);
                    assert(out[j].meta.id == k);
                    if j < n {
                        assert(items[j].meta.id == k);
                    }
                }
            }
        }
    }
}

/// Storing an item stamped by `g` keeps every item stamped by `g`.
pub proof fn lemma_put_stamped(items: Seq<FakeItemView>, it: FakeItemView, g: u64)
    requires
        stamped_by(items, g),
        it.generation <= g,
    ensures
        stamped_by(put_spec(items, it), g),
{
    let out = put_spec(items, it);
    assert forall|i: int| 0 <= i < out.len() implies (#[trigger] out[i]).generation <= g by {
        if i < items.len() && out[i] != it {
            assert(out[i] == items[i]);
        }
    }
}

/// A copy of a byte buffer.
fn copy_bytes(v: &Vec<u8>) -> (r: Vec<u8>)
    ensures
        r@ == v@,
{
    let r = v.clone();
    proof {
        assert(r@ =~= v@);
    }
    r
}

impl FakeItem {
    /// A copy with the same model.
    pub fn copy(&self) -> (r: FakeItem)
        ensures
            r@ == self@,
    {
        FakeItem {
            meta: self.meta.copy(),
            bytes: match &self.bytes {
                Some(b) => Some(copy_bytes(b)),
                None => None,
            },
            generation: self.generation,
        }
    }
}

impl FakeRemoteDrive {
    /// Ids are unique, and no item is stamped later than the counter.
    pub open spec fn wf(&self) -> bool {
        &&& ids_unique(self@.items)
        &&& stamped_by(self@.items, self@.generation)
    }

    /// An empty drive at generation 0.
    pub fn new() -> (d: Self)
        ensures
            d.wf(),
            d@.items == Seq::<FakeItemView>::empty(),
            d@.generation == 0,
    {
        let d = FakeRemoteDrive { items: Vec::new(), generation: 0 };
        proof {
            assert(d@.items =~= Seq::<FakeItemView>::empty());
        }
        d
    }

    /// Position of the item with `id`.
    fn find(&self, id: &str) -> (r: Option<usize>)
        requires
            self.wf(),
        ensures
            match r {
                Some(i) => has_id(self@.items, id@) && i == index_of_id(self@.items, id@) && i < self@.items.len(),
                None => !has_id(self@.items, id@),
            },
    {
        let n = self.items.len();
        for i in 0..n
            invariant
                n == self.items@.len(),
                n == self@.items.len(),
                self.wf(),
                forall|k: int| 0 <= k < i ==> (#[trigger] self@.items[k]).meta.id != id@,
        {
            assert(self@.items[i as int] == self.items@[i as int]@);
            if str_equal(self.items[i].meta.id.as_str(), id) {
                proof {
                    lemma_lookup_at(self@.items, i as int);
                }
                return Some(i);
            }
        }
        None
    }

    /// Stores `it` under its id.
    fn put(&mut self, it: FakeItem)
        requires
            old(self).wf(),
            it.generation <= old(self)@.generation,
        ensures
            final(self).wf(),
            final(self)@.items == put_spec(old(self)@.items, it@),
            final(self)@.generation == old(self)@.generation,
    {
        let ghost before = self@.items;
        let ghost v = it@;
        proof {
            lemma_put(before, v);
            lemma_put_stamped(before, v, self@.generation);
        }
        match self.find(it.meta.id.as_str()) {
            Some(i) => {
                self.items.set(i, it);
                proof {
                    assert(self@.items =~= before.update(i as int, v));
                }
            },
            None => {
                self.items.push(it);
                proof {
                    assert(self@.items =~= before.push(v));
                }
            },
        }
    }
}

} // verus!

verus! {

/// The cursor handed out at generation `g`.
pub open spec fn cursor_text(g: u64) -> Seq<char> {
    "cursor-gen-"@ + decimal(g as nat)
}

/// The generation a cursor names: the number after `cursor-gen-`, or `0`
/// when the prefix is missing or the rest is not a `u64`.
pub open spec fn cursor_generation(cursor: Seq<char>) -> u64 {
    if cursor.len() >= 11 && cursor.take(11) == "cursor-gen-"@ {
        match parse_u64_spec(encode_utf8(cursor.skip(11))) {
            Some(n) => n,
            None => 0,
        }
    } else {
        0
    }
}

/// The metadata of all items, in storage order.
pub open spec fn metas(items: Seq<FakeItemView>) -> Seq<RemoteItemView> {
    items.map_values(|f: FakeItemView| f.meta)
}

/// The metadata of the items stamped after generation `since`, in storage order.
pub open spec fn changed_since(items: Seq<FakeItemView>, since: u64) -> Seq<RemoteItemView>
    decreases items.len(),
{
    if items.len() == 0 {
        Seq::empty()
    } else {
        let rest = changed_since(items.drop_last(), since);
        if items.last().generation > since {
            rest.push(items.last().meta)
        } else {
            rest
        }
    }
}

/// The views of a list of items.
pub open spec fn item_views(v: Seq<RemoteItem>) -> Seq<RemoteItemView> {
    v.map_values(|r: RemoteItem| r@)
}

/// The metadata of an uploaded file at generation `g`.
pub open spec fn uploaded_meta(parent_id: Seq<char>, name: Seq<char>, data: Seq<u8>, g: u64) -> RemoteItemView {
    RemoteItemView {
        id: parent_id + "/"@ + name,
        name,
        size: data.len() as u64,
        e_tag: Some("etag-"@ + decimal(g as nat)),
        c_tag: None,
        last_modified_date_time: None,
        folder: None,
        file: Some(FileHashesView { sha1_hash: Some(hex_lower_of(sha1_spec(data))), quick_xor_hash: None }),
        deleted: false,
        parent_reference: None,
    }
}

/// The metadata of a folder created at generation `g`.
pub open spec fn folder_meta(parent_id: Seq<char>, name: Seq<char>, g: u64) -> RemoteItemView {
    RemoteItemView {
        id: parent_id + "/"@ + name,
        name,
        size: 0,
        e_tag: Some("etag-"@ + decimal(g as nat)),
        c_tag: None,
        last_modified_date_time: None,
        folder: Some(0),
        file: None,
        deleted: false,
        parent_reference: None,
    }
}

/// `meta` with its name replaced.
pub open spec fn renamed(meta: RemoteItemView, new_name: Seq<char>) -> RemoteItemView {
    RemoteItemView { name: new_name, ..meta }
}

/// The error the fake reports for a missing item: `NotFound` with an empty request id.
pub open spec fn not_found() -> GraphInternalErrorView {
    GraphInternalErrorView::NotFound { request_id: Seq::empty() }
}

fn not_found_error() -> (e: GraphInternalError)
    ensures
        e@ == not_found(),
{
    GraphInternalError::NotFound { request_id: String::new() }
}

/// `"etag-"` and the decimal generation.
fn etag_for(g: u64) -> (s: String)
    ensures
        s@ == "etag-"@ + decimal(g as nat),
{
    String::from_str("etag-").concat(u64_to_string(g).as_str())
}

/// The generation named by `cursor`.
pub fn parse_cursor(cursor: &str) -> (g: u64)
    ensures
        g == cursor_generation(cursor@),
{
    let c = str_chars(cursor);
    let prefix = str_chars("cursor-gen-");
    proof {
        reveal_strlit("cursor-gen-");
    }
    if c.len() < 11 {
        return 0;
    }
    let n = c.len();
    if !crate::text::range_equals(c.as_slice(), 0, 11, prefix.as_slice()) {
        proof {
            assert(c@.subrange(0, 11) =~= cursor@.take(11));
        }
        return 0;
    }
    proof {
        assert(c@.subrange(0, 11) =~= cursor@.take(11));
    }
    let rest = crate::text::string_of(c.as_slice(), 11, n);
    proof {
        assert(rest@ =~= cursor@.skip(11));
    }
    match parse_u64(rest.as_str().as_bytes()) {
        Some(v) => v,
        None => 0,
    }
}

impl FakeRemoteDrive {
    /// The current generation.
    pub fn current_gen(&self) -> (g: u64)
        ensures
            g == self@.generation,
    {
        self.generation
    }

    fn bump_gen(&mut self) -> (g: u64)
        requires
            old(self).generation < u64::MAX,
        ensures
            g == old(self)@.generation + 1,
            final(self)@.generation == g,
            final(self)@.items == old(self)@.items,
            old(self).wf() ==> final(self).wf(),
    {
        self.generation = self.generation + 1;
        self.generation
    }

    /// All items, and the cursor for the current generation (the initial scan).
    pub fn delta_all_sync(&self) -> (r: (Vec<RemoteItem>, String))
        ensures
            item_views(r.0@) == metas(self@.items),
            r.1@ == cursor_text(self@.generation),
    {
        let mut out: Vec<RemoteItem> = Vec::new();
        let n = self.items.len();
        for i in 0..n
            invariant
                n == self.items@.len(),
                n == self@.items.len(),
                item_views(out@) == metas(self@.items.take(i as int)),
        {
            let ghost prev = out@;
            let m = self.items[i].meta.copy();
            out.push(m);
            proof {
                assert(self@.items[i as int] == self.items@[i as int]@);
                assert(out@ == prev.push(m));
                assert(item_views(out@) =~= item_views(prev).push(m@));
                assert(metas(self@.items.take(i + 1)) =~= metas(self@.items.take(i as int)).push(
                    self@.items[i as int].meta,
                ));
            }
        }
        proof {
            assert(self@.items.take(n as int) =~= self@.items);
        }
        let cursor = String::from_str("cursor-gen-").concat(u64_to_string(self.generation).as_str());
        (out, cursor)
    }

    /// The items stamped after the generation that `cursor` names, and the
    /// cursor for the current generation.
    pub fn delta_since_sync(&self, cursor: &str) -> (r: (Vec<RemoteItem>, String))
        ensures
            item_views(r.0@) == changed_since(self@.items, cursor_generation(cursor@)),
            r.1@ == cursor_text(self@.generation),
    {
        let since = parse_cursor(cursor);
        let mut out: Vec<RemoteItem> = Vec::new();
        let n = self.items.len();
        for i in 0..n
            invariant
                n == self.items@.len(),
                n == self@.items.len(),
                item_views(out@) == changed_since(self@.items.take(i as int), since),
        {
            proof {
                assert(self@.items[i as int] == self.items@[i as int]@);
                assert(self@.items.take(i + 1).drop_last() =~= self@.items.take(i as int));
            }
            if self.items[i].generation > since {
                let m = self.items[i].meta.copy();
                out.push(m);
                proof {
                    assert(item_views(out@) =~= changed_since(self@.items.take(i + 1), since));
                }
            }
        }
        proof {
            assert(self@.items.take(n as int) =~= self@.items);
        }
        let cursor = String::from_str("cursor-gen-").concat(u64_to_string(self.generation).as_str());
        (out, cursor)
    }

    /// Stores a file under `parent_id/name` (replacing any item with that
    /// id) at the next generation, and returns its metadata.
    pub fn upload_sync(&mut self, parent_id: &str, name: &str, data: Vec<u8>) -> (r: RemoteItem)
        requires
            old(self).wf(),
            old(self)@.generation < u64::MAX,
            data@.len() <= u64::MAX,
        ensures
            final(self).wf(),
            final(self)@.generation == old(self)@.generation + 1,
            r@ == uploaded_meta(parent_id@, name@, data@, final(self)@.generation),
            final(self)@.items == put_spec(
                old(self)@.items,
                FakeItemView { meta: r@, bytes: Some(data@), generation: final(self)@.generation },
            ),
    {
        let g = self.bump_gen();
        let id = String::from_str(parent_id).concat("/").concat(name);
        let size = data.len() as u64;
        let sha1 = hex_encode(sha1_digest(data.as_slice()).as_slice());
        let meta = RemoteItem {
            id,
            name: String::from_str(name),
            size,
            e_tag: Some(etag_for(g)),
            c_tag: None,
            last_modified_date_time: None,
            folder: None,
            file: Some(FileFacet { hashes: FileHashes { sha1_hash: Some(sha1), quick_xor_hash: None } }),
            deleted: None,
            parent_reference: None,
        };
        let r = meta.copy();
        self.put(FakeItem { meta, bytes: Some(data), generation: g });
        r
    }

    /// The bytes stored under `item_id`; `NotFound` when no such item is
    /// stored or it is a folder.
    pub fn download_sync(&self, item_id: &str) -> (r: Result<Vec<u8>, GraphInternalError>)
        requires
            self.wf(),
        ensures
            match lookup(self@.items, item_id@) {
                Some(f) => match f.bytes {
                    Some(b) => r matches Ok(v) && v@ == b,
                    None => r matches Err(e) && e@ == not_found(),
                },
                None => r matches Err(e) && e@ == not_found(),
            },
    {
        match self.find(item_id) {
            Some(i) => {
                proof {
                    assert(self@.items[i as int] == self.items@[i as int]@);
                }
                match &self.items[i].bytes {
                    Some(b) => Ok(copy_bytes(b)),
                    None => Err(not_found_error()),
                }
            },
            None => Err(not_found_error()),
        }
    }

    /// Renames the item under `item_id` and stamps it with the next
    /// generation (the counter advances even when no such item exists).
    pub fn rename_sync(&mut self, item_id: &str, new_name: &str) -> (r: Result<RemoteItem, GraphInternalError>)
        requires
            old(self).wf(),
            old(self)@.generation < u64::MAX,
        ensures
            final(self).wf(),
            final(self)@.generation == old(self)@.generation + 1,
            match lookup(old(self)@.items, item_id@) {
                Some(f) => {
                    &&& r matches Ok(m) && m@ == renamed(f.meta, new_name@)
                    &&& final(self)@.items == old(self)@.items.update(
                        index_of_id(old(self)@.items, item_id@),
                        FakeItemView {
                            meta: renamed(f.meta, new_name@),
                            bytes: f.bytes,
                            generation: final(self)@.generation,
                        },
                    )
                },
                None => r matches Err(e) && e@ == not_found() && final(self)@.items == old(self)@.items,
            },
    {
        let g = self.bump_gen();
        match self.find(item_id) {
            Some(i) => {
                let ghost before = self@.items;
                let old_item = self.items[i].copy();
                proof {
                    assert(before[i as int] == self.items@[i as int]@);
                }
                let mut meta = old_item.meta;
                meta.name = String::from_str(new_name);
                let r = meta.copy();
                let it = FakeItem { meta, bytes: old_item.bytes, generation: g };
                let ghost v = it@;
                self.items.set(i, it);
                proof {
                    assert(self@.items =~= before.update(i as int, v));
                    assert forall|a: int, b: int|
                        0 <= a < self@.items.len() && 0 <= b < self@.items.len() && a != b implies #[trigger] self@.items[a].meta.id
                        != #[trigger] self@.items[b].meta.id by {
                        assert(self@.items[a].meta.id == before[a].meta.id);
                        assert(self@.items[b].meta.id == before[b].meta.id);
                    }
                }
                Ok(r)
            },
            None => Err(not_found_error()),
        }
    }

    /// Removes the item under `item_id`; `NotFound` when there is none. The
    /// generation does not change.
    pub fn delete_sync(&mut self, item_id: &str) -> (r: Result<(), GraphInternalError>)
        requires
            old(self).wf(),
        ensures
            final(self).wf(),
            final(self)@.generation == old(self)@.generation,
            has_id(old(self)@.items, item_id@) ==> r is Ok && final(self)@.items == old(self)@.items.remove(
                index_of_id(old(self)@.items, item_id@),
            ),
            !has_id(old(self)@.items, item_id@) ==> (r matches Err(e) && e@ == not_found())
                && final(self)@.items == old(self)@.items,
    {
        match self.find(item_id) {
            Some(i) => {
                let ghost before = self@.items;
                let _removed = self.items.remove(i);
                proof {
                    assert(self@.items =~= before.remove(i as int));
                    assert forall|a: int, b: int|
                        0 <= a < self@.items.len() && 0 <= b < self@.items.len() && a != b implies #[trigger] self@.items[a].meta.id
                        != #[trigger] self@.items[b].meta.id by {
                        let a0 = if a < i { a } else { a + 1 };
                        let b0 = if b < i { b } else { b + 1 };
                        assert(self@.items[a] == before[a0]);
                        assert(self@.items[b] == before[b0]);
                    }
                }
                Ok(())
            },
            None => Err(not_found_error()),
        }
    }

    /// Creates the folder `parent_id/name` (replacing any item with that id)
    /// at the next generation, and returns its metadata.
    pub fn mkdir_sync(&mut self, parent_id: &str, name: &str) -> (r: RemoteItem)
        requires
            old(self).wf(),
            old(self)@.generation < u64::MAX,
        ensures
            final(self).wf(),
            final(self)@.generation == old(self)@.generation + 1,
            r@ == folder_meta(parent_id@, name@, final(self)@.generation),
            final(self)@.items == put_spec(
                old(self)@.items,
                FakeItemView { meta: r@, bytes: None, generation: final(self)@.generation },
            ),
    {
        let g = self.bump_gen();
        let meta = RemoteItem {
            id: String::from_str(parent_id).concat("/").concat(name),
            name: String::from_str(name),
            size: 0,
            e_tag: Some(etag_for(g)),
            c_tag: None,
            last_modified_date_time: None,
            folder: Some(FolderFacet { child_count: 0 }),
            file: None,
            deleted: None,
            parent_reference: None,
        };
        let r = meta.copy();
        self.put(FakeItem { meta, bytes: None, generation: g });
        r
    }
}

} // verus!

verus! {

/// Whether `m` answers a by-path lookup for `path` (by name or by id).
pub open spec fn matches_path(m: RemoteItemView, path: Seq<char>) -> bool {
    m.name == path || m.id == path
}

/// The upload URL of the fake's upload sessions.
pub open spec fn fake_upload_url(parent: Seq<char>, name: Seq<char>) -> Seq<char> {
    "fake://upload/"@ + parent + "/"@ + name
}

impl FakeRemoteDrive {
    /// The fixed profile of the fake account.
    pub fn account_profile(&self) -> (p: AccountProfile)
        ensures
            p.oid@ == "fake-oid"@,
            p.upn@ == "fake@example.com"@,
            p.display_name@ == "Fake User"@,
            p.tenant_id@ == "fake-tenant"@,
            p.drive_id@ == "fake-drive"@,
    {
        AccountProfile {
            oid: String::from_str("fake-oid"),
            upn: String::from_str("fake@example.com"),
            display_name: String::from_str("Fake User"),
            tenant_id: String::from_str("fake-tenant"),
            drive_id: String::from_str("fake-drive"),
        }
    }

    /// The first stored item whose name or id is `path`.
    pub fn item_by_path(&self, path: &str) -> (r: Option<RemoteItem>)
        ensures
            match r {
                Some(x) => exists|i: int|
                    0 <= i < self@.items.len() && matches_path(#[trigger] self@.items[i].meta, path@)
                        && x@ == self@.items[i].meta && forall|j: int|
                        0 <= j < i ==> !matches_path(#[trigger] self@.items[j].meta, path@),
                None => forall|i: int|
                    0 <= i < self@.items.len() ==> !matches_path(#[trigger] self@.items[i].meta, path@),
            },
    {
        let n = self.items.len();
        for i in 0..n
            invariant
                n == self.items@.len(),
                n == self@.items.len(),
                forall|j: int| 0 <= j < i ==> !matches_path(#[trigger] self@.items[j].meta, path@),
        {
            proof {
                assert(self@.items[i as int] == self.items@[i as int]@);
            }
            let m = &self.items[i].meta;
            if str_equal(m.name.as_str(), path) || str_equal(m.id.as_str(), path) {
                let x = m.copy();
                proof {
                    assert(matches_path(self@.items[i as int].meta, path@));
                }
                return Some(x);
            }
        }
        None
    }

    /// A delta page: everything for no cursor, else the items stamped after
    /// the cursor's generation; never a next link, always a fresh cursor.
    pub fn delta(&self, cursor: Option<&DeltaCursor>) -> (p: DeltaPage)
        ensures
            item_views(p.items@) == match cursor {
                None => metas(self@.items),
                Some(c) => changed_since(self@.items, cursor_generation(c.0@)),
            },
            p.next_link is None,
            p.delta_token matches Some(t) && t.0@ == cursor_text(self@.generation),
    {
        let (items, new_cursor) = match cursor {
            None => self.delta_all_sync(),
            Some(c) => self.delta_since_sync(c.as_str()),
        };
        DeltaPage { items, next_link: None, delta_token: Some(DeltaCursor::new(new_cursor.as_str())) }
    }

    /// The stored bytes of `item`, with the port-level error on failure.
    pub fn download(&self, item: &RemoteItemId) -> (r: Result<RemoteReadStream, GraphError>)
        requires
            self.wf(),
        ensures
            match lookup(self@.items, item.0@) {
                Some(f) => match f.bytes {
                    Some(b) => r matches Ok(s) && s.0@ == b,
                    None => r matches Err(e) && e@ == port_error(not_found()),
                },
                None => r matches Err(e) && e@ == port_error(not_found()),
            },
    {
        match self.download_sync(item.as_str()) {
            Ok(b) => Ok(RemoteReadStream(b)),
            Err(e) => Err(map_to_port(e)),
        }
    }

    /// Uploads `bytes` as `name` under `parent`.
    pub fn upload_small(&mut self, parent: &RemoteItemId, name: &str, bytes: &[u8]) -> (r: RemoteItem)
        requires
            old(self).wf(),
            old(self)@.generation < u64::MAX,
            bytes@.len() <= u64::MAX,
        ensures
            final(self).wf(),
            final(self)@.generation == old(self)@.generation + 1,
            r@ == uploaded_meta(parent.0@, name@, bytes@, final(self)@.generation),
            final(self)@.items == put_spec(
                old(self)@.items,
                FakeItemView { meta: r@, bytes: Some(bytes@), generation: final(self)@.generation },
            ),
    {
        let mut data: Vec<u8> = Vec::new();
        let n = bytes.len();
        for i in 0..n
            invariant
                n == bytes@.len(),
                data@ == bytes@.take(i as int),
        {
            data.push(bytes[i]);
            proof {
                assert(data@ =~= bytes@.take(i + 1));
            }
        }
        proof {
            assert(bytes@.take(n as int) =~= bytes@);
        }
        self.upload_sync(parent.as_str(), name, data)
    }

    /// A session handle whose URL names the parent and the file.
    pub fn upload_session(&self, parent: &RemoteItemId, name: &str, size: u64) -> (s: UploadSession)
        ensures
            s.upload_url@ == fake_upload_url(parent.0@, name@),
            s.bytes_uploaded == 0,
    {
        UploadSession {
            upload_url: String::from_str("fake://upload/").concat(parent.as_str()).concat("/").concat(name),
            bytes_uploaded: 0,
        }
    }

    /// Renames `item`, with the port-level error on failure.
    pub fn rename(&mut self, item: &RemoteItemId, new_name: &str) -> (r: Result<RemoteItem, GraphError>)
        requires
            old(self).wf(),
            old(self)@.generation < u64::MAX,
        ensures
            final(self).wf(),
            final(self)@.generation == old(self)@.generation + 1,
            match lookup(old(self)@.items, item.0@) {
                Some(f) => {
                    &&& r matches Ok(m) && m@ == renamed(f.meta, new_name@)
                    &&& final(self)@.items == old(self)@.items.update(
                        index_of_id(old(self)@.items, item.0@),
                        FakeItemView {
                            meta: renamed(f.meta, new_name@),
                            bytes: f.bytes,
                            generation: final(self)@.generation,
                        },
                    )
                },
                None => r matches Err(e) && e@ == port_error(not_found()) && final(self)@.items
                    == old(self)@.items,
            },
    {
        match self.rename_sync(item.as_str(), new_name) {
            Ok(m) => Ok(m),
            Err(e) => Err(map_to_port(e)),
        }
    }

    /// Deletes `item`, with the port-level error on failure.
    pub fn delete(&mut self, item: &RemoteItemId) -> (r: Result<(), GraphError>)
        requires
            old(self).wf(),
        ensures
            final(self).wf(),
            final(self)@.generation == old(self)@.generation,
            has_id(old(self)@.items, item.0@) ==> r is Ok && final(self)@.items == old(self)@.items.remove(
                index_of_id(old(self)@.items, item.0@),
            ),
            !has_id(old(self)@.items, item.0@) ==> (r matches Err(e) && e@ == port_error(not_found()))
                && final(self)@.items == old(self)@.items,
    {
        match self.delete_sync(item.as_str()) {
            Ok(()) => Ok(()),
            Err(e) => Err(map_to_port(e)),
        }
    }

    /// A subscription id derived from the client state.
    pub fn subscribe(&self, client_state: &str) -> (id: String)
        ensures
            id@ == "fake-sub-"@ + client_state@,
    {
        String::from_str("fake-sub-").concat(client_state)
    }

    /// Creates the folder `name` under `parent`.
    pub fn mkdir(&mut self, parent: &RemoteItemId, name: &str) -> (r: RemoteItem)
        requires
            old(self).wf(),
            old(self)@.generation < u64::MAX,
        ensures
            final(self).wf(),
            final(self)@.generation == old(self)@.generation + 1,
            r@ == folder_meta(parent.0@, name@, final(self)@.generation),
            final(self)@.items == put_spec(
                old(self)@.items,
                FakeItemView { meta: r@, bytes: None, generation: final(self)@.generation },
            ),
    {
        self.mkdir_sync(parent.as_str(), name)
    }
}

} // verus!

verus! {

/// A file that was uploaded downloads back as the uploaded bytes.
pub proof fn law_upload_then_download(
    items: Seq<FakeItemView>,
    parent_id: Seq<char>,
    name: Seq<char>,
    data: Seq<u8>,
    g: u64,
)
    requires
        ids_unique(items),
    ensures
        ({
            let it = FakeItemView { meta: uploaded_meta(parent_id, name, data, g), bytes: Some(data), generation: g };
            lookup(put_spec(items, it), parent_id + "/"@ + name) matches Some(f) && f.bytes == Some(data)
        }),
{
    let it = FakeItemView { meta: uploaded_meta(parent_id, name, data, g), bytes: Some(data), generation: g };
    lemma_put(items, it);
}

/// Once deleted, an item is no longer found.
pub proof fn law_delete_then_not_found(items: Seq<FakeItemView>, id: Seq<char>)
    requires
        ids_unique(items),
        has_id(items, id),
    ensures
        lookup(items.remove(index_of_id(items, id)), id) is None,
{
    let i = index_of_id(items, id);
    let out = items.remove(i);
    assert(items[i].meta.id == id);
    if has_id(out, id) {
        let j = index_of_id(out, id);
        assert(out[j].meta.id == id);
        let j0 = if j < i { j } else { j + 1 };
        assert(out[j] == items[j0]);
    }
}

/// Nothing is reported since the current generation.
pub proof fn law_delta_since_current_is_empty(items: Seq<FakeItemView>, g: u64)
    requires
        stamped_by(items, g),
    ensures
        changed_since(items, g) == Seq::<RemoteItemView>::empty(),
    decreases items.len(),
{
    if items.len() > 0 {
        assert(items.drop_last().len() < items.len());
        assert(stamped_by(items.drop_last(), g)) by {
            assert forall|i: int| 0 <= i < items.drop_last().len() implies (#[trigger] items.drop_last()[i]).generation <= g by {
                assert(items.drop_last()[i] == items[i]);
            }
        }
        law_delta_since_current_is_empty(items.drop_last(), g);
        assert(items.last() == items[items.len() - 1]);
    }
}

proof fn lemma_single_change(s: Seq<FakeItemView>, k: int, g: u64)
    requires
        0 <= k < s.len(),
        s[k].generation > g,
        forall|i: int| 0 <= i < s.len() && i != k ==> (#[trigger] s[i]).generation <= g,
    ensures
        changed_since(s, g) == seq![s[k].meta],
    decreases s.len(),
{
    let n = s.len() as int;
    if k == n - 1 {
        let p = s.drop_last();
        assert(stamped_by(p, g)) by {
            assert forall|i: int| 0 <= i < p.len() implies (#[trigger] p[i]).generation <= g by {
                assert(p[i] == s[i]);
            }
        }
        law_delta_since_current_is_empty(p, g);
        assert(changed_since(s, g) =~= seq![s[k].meta]);
    } else {
        let p = s.drop_last();
        assert(p[k] == s[k]);
        assert forall|i: int| 0 <= i < p.len() && i != k implies (#[trigger] p[i]).generation <= g by {
            assert(p[i] == s[i]);
        }
        lemma_single_change(p, k, g);
        assert(s.last() == s[n - 1]);
    }
}

/// With every item stamped by `g`, storing one item stamped after `g` makes it
/// the one change reported since `g`.
pub proof fn law_delta_since_reports_new_item(items: Seq<FakeItemView>, it: FakeItemView, g: u64)
    requires
        ids_unique(items),
        stamped_by(items, g),
        it.generation > g,
    ensures
        changed_since(put_spec(items, it), g) == seq![it.meta],
{
    let out = put_spec(items, it);
    if has_id(items, it.meta.id) {
        let i = index_of_id(items, it.meta.id);
        assert(items[i].meta.id == it.meta.id);
        assert forall|j: int| 0 <= j < out.len() && j != i implies (#[trigger] out[j]).generation <= g by {
            assert(out[j] == items[j]);
        }
        lemma_single_change(out, i, g);
    } else {
        let n = items.len() as int;
        assert forall|j: int| 0 <= j < out.len() && j != n implies (#[trigger] out[j]).generation <= g by {
            assert(out[j] == items[j]);
        }
        lemma_single_change(out, n, g);
    }
}

} // verus!

verus! {

/// A cursor handed out at generation `g` names generation `g`, so a delta
/// since it reports exactly the items stamped later.
pub proof fn law_cursor_round_trip(g: u64)
    ensures
        cursor_generation(cursor_text(g)) == g,
{
    reveal_strlit("cursor-gen-");
    let t = cursor_text(g);
    assert(t.take(11) =~= "cursor-gen-"@);
    assert(t.skip(11) =~= decimal(g as nat));
    crate::text::lemma_parse_decimal(g);
}

} // verus!

verus! {

impl Default for FakeRemoteDrive {
    /// An empty drive at generation 0.
    fn default() -> (d: Self)
        ensures
            d.wf(),
            d@.items == Seq::<FakeItemView>::empty(),
            d@.generation == 0,
    {
        FakeRemoteDrive::new()
    }
}

} // verus!

verus! {

/// On a well-formed drive, an item removed by a delete is no longer found.
pub proof fn law_drive_delete_then_not_found(d: FakeRemoteDrive, id: Seq<char>)
    requires
        d.wf(),
        has_id(d@.items, id),
    ensures
        lookup(d@.items.remove(index_of_id(d@.items, id)), id) is None,
{
    law_delete_then_not_found(d@.items, id);
}

} // verus!
