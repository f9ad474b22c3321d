//! Content-addressed file storage and the record service that keeps
//! filesystem bytes and relational metadata consistent.

use vstd::prelude::*;
use crate::assoc::{assoc, assoc_wf, lemma_assoc_push, lemma_assoc_remove, lemma_assoc_update};
use crate::error::ApiError;
use crate::hexfmt::{hex_u64, parse_hex_u64, spec_parse_hex_u64, u64_to_hex};
use crate::session::AuthContext;
use crate::text::str_eq;

verus! {

/// How many random draws identifier generation makes before giving up;
/// with 64-bit identifiers it is effectively never exhausted.
pub const MAX_ID_ATTEMPTS: usize = 16;

/// A random 64-bit handle naming a stored blob, independent of its
/// content; rendered as lowercase hex in paths and URLs.
#[derive(Debug, Clone, Copy, PartialEq, Eq, PartialOrd, Ord, Hash, Default, Structural)]
pub struct FileId(u64);

impl View for FileId {
    type V = u64;

    closed spec fn view(&self) -> u64 {
        self.0
    }
}

impl FileId {
    /// Generate a new random file id.
    pub fn random() -> Self {
        FileId(rand::random())
    }

    /// Builds an identifier from its raw value.
    pub fn from_raw(raw: u64) -> (r: Self)
        ensures
            r@ == raw,
    {
        FileId(raw)
    }

    /// Get the underlying data.
    pub fn raw(&self) -> (r: u64)
        ensures
            r == self@,
    {
        self.0
    }

    /// The identifier's external form: minimal lowercase hex.
    pub fn to_hex(&self) -> (r: String)
        ensures
            r@ == hex_u64(self@ as nat),
    {
        u64_to_hex(self.0)
    }

    /// Reads an identifier back from hex.
    pub fn parse_hex(s: &str) -> (r: Option<Self>)
        ensures
            match r {
                Some(f) => spec_parse_hex_u64(s@) == Some(f@),
                None => spec_parse_hex_u64(s@) is None,
            },
    {
        match parse_hex_u64(s) {
            Some(v) => Some(FileId(v)),
            None => None,
        }
    }
}

/// One stored blob.
pub struct StoredObject {
    pub file_id: FileId,
    pub bytes: Vec<u8>,
}

/// The key of a stored blob.
pub open spec fn by_object_id() -> spec_fn(StoredObject) -> FileId {
    |o: StoredObject| o.file_id
}

/// The blob stored under an identifier, if any.
pub open spec fn stored_with_id(s: Seq<StoredObject>, id: FileId) -> Option<StoredObject> {
    assoc(s, by_object_id(), id)
}

/// The bytes a read of an identifier yields.
pub open spec fn spec_get(s: Seq<StoredObject>, id: FileId) -> Option<Seq<u8>> {
    match stored_with_id(s, id) {
        Some(o) => Some(o.bytes@),
        None => None,
    }
}

/// Blob identifiers are pairwise distinct.
pub open spec fn objects_wf(s: Seq<StoredObject>) -> bool {
    assoc_wf(s, by_object_id())
}

/// Byte-level storage: a flat keyspace of blobs on durable storage, one
/// object per identifier.
pub struct FileStore {
    objects: Vec<StoredObject>,
}

impl View for FileStore {
    type V = Seq<StoredObject>;

    closed spec fn view(&self) -> Seq<StoredObject> {
        self.objects@
    }
}

impl FileStore {
    /// Blob identifiers are pairwise distinct.
    pub open spec fn wf(&self) -> bool {
        objects_wf(self@)
    }

    /// An empty store.
    pub fn new() -> (r: Self)
        ensures
            r@ == Seq::<StoredObject>::empty(),
            r.wf(),
    {
        FileStore { objects: Vec::new() }
    }

    /// The index of the blob stored under an identifier.
    fn find_index(&self, id: FileId) -> (r: Option<usize>)
        ensures
            match r {
                Some(i) => i < self@.len() && self@[i as int].file_id == id && stored_with_id(
                    self@,
                    id,
                ) == Some(self@[i as int]),
                None => stored_with_id(self@, id) is None,
            },
    {
        let n = self.objects.len();
        proof {
            assert(self@.take(n as int) =~= self@);
        }
        let mut i = n;
        while i > 0
            invariant
                i <= n == self@.len(),
                stored_with_id(self@, id) == assoc(self@.take(i as int), by_object_id(), id),
            decreases i,
        {
            proof {
                assert(self@.take(i as int).last() == self@[i - 1]);
                assert(self@.take(i as int).drop_last() =~= self@.take(i - 1));
            }
            if self.objects[i - 1].file_id == id {
                return Some(i - 1);
            }
            i = i - 1;
        }
        None
    }

    /// Writes a blob, replacing any previous content under the same
    /// identifier, and returns how many bytes were written: the observed
    /// count, which callers persist instead of any client-claimed size.
    pub fn put(&mut self, id: FileId, data: Vec<u8>) -> (written: u64)
        requires
            old(self).wf(),
            data@.len() <= u64::MAX,
        ensures
            final(self).wf(),
            written == data@.len(),
            spec_get(final(self)@, id) == Some(data@),
            forall|id2: FileId|
                id2 != id ==> stored_with_id(final(self)@, id2) == stored_with_id(old(self)@, id2),
    {
        let written = data.len() as u64;
        let obj = StoredObject { file_id: id, bytes: data };
        match self.find_index(id) {
            Some(i) => {
                proof {
                    lemma_assoc_update(self@, by_object_id(), i as int, obj);
                }
                self.objects.set(i, obj);
            },
            None => {
                proof {
                    lemma_assoc_push(self@, by_object_id(), obj);
                }
                self.objects.push(obj);
            },
        }
        written
    }

    /// Reads a blob; a missing object is "not found", not an error.
    pub fn get(&self, id: FileId) -> (r: Option<&Vec<u8>>)
        ensures
            match r {
                Some(v) => spec_get(self@, id) == Some(v@),
                None => spec_get(self@, id) is None,
            },
    {
        match self.find_index(id) {
            Some(i) => Some(&self.objects[i].bytes),
            None => None,
        }
    }

    /// Exchanges the store's whole contents, for rebuilds that drop
    /// many blobs at once.
    pub(crate) fn swap_objects(&mut self, other: &mut Vec<StoredObject>)
        ensures
            final(self)@ == old(other)@,
            final(other)@ == old(self)@,
    {
        core::mem::swap(&mut self.objects, other)
    }

    /// Permanently removes a blob; removing a missing one is an error,
    /// as the underlying storage reports it.
    pub fn remove(&mut self, id: FileId) -> (r: Result<(), ApiError>)
        requires
            old(self).wf(),
        ensures
            final(self).wf(),
            r is Ok <==> stored_with_id(old(self)@, id) is Some,
            r is Err ==> r == Err::<(), ApiError>(ApiError::Internal) && final(self)@ == old(
                self,
            )@,
            stored_with_id(final(self)@, id) is None,
            forall|id2: FileId|
                id2 != id ==> stored_with_id(final(self)@, id2) == stored_with_id(old(self)@, id2),
    {
        match self.find_index(id) {
            Some(i) => {
                proof {
                    lemma_assoc_remove(self@, by_object_id(), i as int);
                }
                self.objects.remove(i);
                Ok(())
            },
            None => Err(ApiError::Internal),
        }
    }
}

/// Writing a blob and reading it back yields byte-identical content,
/// and the count reported by the write is the content's length.
pub proof fn lemma_file_round_trip(after: Seq<StoredObject>, id: FileId, data: Seq<u8>, written: u64)
    requires
        spec_get(after, id) == Some(data),
        written == data.len(),
    ensures
        spec_get(after, id) matches Some(bytes) && bytes == data && written == bytes.len(),
{
}

} // verus!
