//! The file record service: it sequences blob writes and metadata rows
//! so that no row ever points at missing bytes.

use vstd::prelude::*;
use crate::assoc::{assoc, assoc_wf, lemma_assoc_filter, lemma_assoc_found, lemma_assoc_push, lemma_assoc_remove};
use crate::error::ApiError;
use crate::filestore::{
    by_object_id, objects_wf, spec_get, stored_with_id, FileId, FileStore, StoredObject,
    MAX_ID_ATTEMPTS,
};
use crate::session::AuthContext;
use crate::text::str_eq;

verus! {

/// One file's metadata row.
#[derive(Debug, Clone)]
pub struct FileRecord {
    /// The identifier naming the blob.
    pub file_id: FileId,
    /// The name the file was uploaded under.
    pub file_name: String,
    /// The observed byte count, as the store reported it at creation.
    pub file_size: u64,
    /// When the file was uploaded, as epoch milliseconds.
    pub upload_date: i64,
    /// Who uploaded the file.
    pub uploader_id: u128,
}

/// The key of a metadata row.
pub open spec fn by_record_id() -> spec_fn(FileRecord) -> FileId {
    |r: FileRecord| r.file_id
}

/// The metadata row under an identifier, if any.
pub open spec fn record_with_id(s: Seq<FileRecord>, id: FileId) -> Option<FileRecord> {
    assoc(s, by_record_id(), id)
}

/// Row identifiers are pairwise distinct.
pub open spec fn records_wf(s: Seq<FileRecord>) -> bool {
    assoc_wf(s, by_record_id())
}

/// What a metadata lookup by identifier and name yields: the row, only
/// if the name also matches.
pub open spec fn spec_file_info(s: Seq<FileRecord>, id: FileId, name: Seq<char>) -> Option<
    FileRecord,
> {
    match record_with_id(s, id) {
        Some(rec) => if rec.file_name@ == name {
            Some(rec)
        } else {
            None
        },
        None => None,
    }
}

/// Keeps the rows one user uploaded.
pub open spec fn uploaded_by(uploader: u128) -> spec_fn(FileRecord) -> bool {
    |r: FileRecord| r.uploader_id == uploader
}

/// Keeps the rows that survive deleting one user's files.
pub open spec fn kept_record(uploader: u128) -> spec_fn(FileRecord) -> bool {
    |r: FileRecord| r.uploader_id != uploader
}

/// Keeps the blobs that still have a metadata row.
pub open spec fn has_row(recs: Seq<FileRecord>) -> spec_fn(StoredObject) -> bool {
    |o: StoredObject| record_with_id(recs, o.file_id) is Some
}

/// The total stored size of one user's files.
pub open spec fn sizes_sum(s: Seq<FileRecord>, uploader: u128) -> nat
    decreases s.len(),
{
    if s.len() == 0 {
        0
    } else {
        (sizes_sum(s.drop_last(), uploader) + (if s.last().uploader_id == uploader {
            s.last().file_size as nat
        } else {
            0
        })) as nat
    }
}

/// Coordinates the byte store with the metadata rows under
/// transactional discipline.
pub struct FileDb {
    records: Vec<FileRecord>,
    store: FileStore,
}

impl FileDb {
    /// The metadata rows.
    pub closed spec fn recs(&self) -> Seq<FileRecord> {
        self.records@
    }

    /// The stored blobs.
    pub closed spec fn objs(&self) -> Seq<StoredObject> {
        self.store@
    }

    /// Rows and blobs are uniquely keyed, and a metadata row exists
    /// exactly when the corresponding bytes exist in the store.
    pub open spec fn wf(&self) -> bool {
        records_wf(self.recs()) && objects_wf(self.objs()) && (forall|id: FileId|
            (#[trigger] record_with_id(self.recs(), id)) is Some <==> stored_with_id(
                self.objs(),
                id,
            ) is Some)
    }

    /// An empty service.
    pub fn new() -> (r: Self)
        ensures
            r.recs() == Seq::<FileRecord>::empty(),
            r.objs() == Seq::<StoredObject>::empty(),
            r.wf(),
    {
        FileDb { records: Vec::new(), store: FileStore::new() }
    }

    /// How many files are recorded.
    pub fn len(&self) -> (r: usize)
        ensures
            r == self.recs().len(),
    {
        self.records.len()
    }

    /// The index of the row under an identifier.
    fn find_index(&self, id: FileId) -> (r: Option<usize>)
        ensures
            match r {
                Some(i) => i < self.recs().len() && self.recs()[i as int].file_id == id
                    && record_with_id(self.recs(), id) == Some(self.recs()[i as int]),
                None => record_with_id(self.recs(), id) is None,
            },
    {
        let n = self.records.len();
        proof {
            assert(self.recs().take(n as int) =~= self.recs());
        }
        let mut i = n;
        while i > 0
            invariant
                i <= n == self.recs().len(),
                record_with_id(self.recs(), id) == assoc(
                    self.recs().take(i as int),
                    by_record_id(),
                    id,
                ),
            decreases i,
        {
            proof {
                assert(self.recs().take(i as int).last() == self.recs()[i - 1]);
                assert(self.recs().take(i as int).drop_last() =~= self.recs().take(i - 1));
            }
            if self.records[i - 1].file_id == id {
                return Some(i - 1);
            }
            i = i - 1;
        }
        None
    }

    /// Draws identifiers until one is not yet recorded.
    fn fresh_id(&self) -> (r: Option<FileId>)
        ensures
            r matches Some(id) ==> record_with_id(self.recs(), id) is None,
    {
        let mut attempts: usize = 0;
        while attempts < MAX_ID_ATTEMPTS
            decreases MAX_ID_ATTEMPTS - attempts,
        {
            let id = FileId::random();
            if self.find_index(id).is_none() {
                return Some(id);
            }
            attempts = attempts + 1;
        }
        None
    }

    /// Records a new file: draws an identifier, retrying while it
    /// collides with a recorded one; streams the bytes into the store
    /// first, so a crash leaves at worst an orphaned blob, never a row
    /// pointing at nothing; and records the observed byte count.
    pub fn create(
        &mut self,
        uploader_id: u128,
        file_name: String,
        content: Vec<u8>,
        now: i64,
    ) -> (r: Result<FileRecord, ApiError>)
        requires
            old(self).wf(),
            content@.len() <= u64::MAX,
        ensures
            final(self).wf(),
            r matches Ok(rec) ==> ({
                &&& record_with_id(old(self).recs(), rec.file_id) is None
                &&& rec.file_name@ == file_name@
                &&& rec.file_size == content@.len()
                &&& rec.upload_date == now
                &&& rec.uploader_id == uploader_id
                &&& final(self).recs() == old(self).recs().push(rec)
                &&& spec_get(final(self).objs(), rec.file_id) == Some(content@)
                &&& forall|id2: FileId|
                    id2 != rec.file_id ==> stored_with_id(final(self).objs(), id2)
                        == stored_with_id(old(self).objs(), id2)
            }),
            r matches Err(e) ==> e == ApiError::Internal && final(self).recs() == old(self).recs()
                && final(self).objs() == old(self).objs(),
    {
        let id = match self.fresh_id() {
            Some(id) => id,
            None => {
                return Err(ApiError::Internal);
            },
        };
        let file_size = self.store.put(id, content);
        let rec = FileRecord {
            file_id: id,
            file_name,
            file_size,
            upload_date: now,
            uploader_id,
        };
        let copy = FileRecord {
            file_id: rec.file_id,
            file_name: rec.file_name.clone(),
            file_size: rec.file_size,
            upload_date: rec.upload_date,
            uploader_id: rec.uploader_id,
        };
        proof {
            assert(copy == rec);
            lemma_assoc_push(self.recs(), by_record_id(), rec);
        }
        self.records.push(rec);
        proof {
            assert forall|id2: FileId|
                ((#[trigger] record_with_id(self.recs(), id2)) is Some <==> stored_with_id(
                    self.objs(),
                    id2,
                ) is Some) by {
                if id2 == id {
                    assert(record_with_id(self.recs(), id2) == Some(copy));
                    assert(spec_get(self.objs(), id2) == Some(content@));
                } else {
                    assert(record_with_id(self.recs(), id2) == record_with_id(
                        old(self).recs(),
                        id2,
                    ));
                    assert(stored_with_id(self.objs(), id2) == stored_with_id(
                        old(self).objs(),
                        id2,
                    ));
                }
            }
        }
        Ok(copy)
    }

    /// The metadata row under an identifier.
    pub fn file_info(&self, id: FileId) -> (r: Option<&FileRecord>)
        ensures
            match r {
                Some(rec) => record_with_id(self.recs(), id) == Some(*rec),
                None => record_with_id(self.recs(), id) is None,
            },
    {
        match self.find_index(id) {
            Some(i) => Some(&self.records[i]),
            None => None,
        }
    }

    /// The metadata row under an identifier, only if the name matches:
    /// a mismatched name is indistinguishable from a missing file.
    pub fn info_named(&self, id: FileId, file_name: &str) -> (r: Option<&FileRecord>)
        ensures
            match r {
                Some(rec) => spec_file_info(self.recs(), id, file_name@) == Some(*rec),
                None => spec_file_info(self.recs(), id, file_name@) is None,
            },
    {
        match self.find_index(id) {
            Some(i) => {
                if str_eq(self.records[i].file_name.as_str(), file_name) {
                    Some(&self.records[i])
                } else {
                    None
                }
            },
            None => None,
        }
    }

    /// The bytes of a file named by identifier and name.
    pub fn content(&self, id: FileId, file_name: &str) -> (r: Option<&Vec<u8>>)
        requires
            self.wf(),
        ensures
            r is Some <==> spec_file_info(self.recs(), id, file_name@) is Some,
            r matches Some(v) ==> spec_get(self.objs(), id) == Some(v@),
    {
        if self.info_named(id, file_name).is_none() {
            return None;
        }
        match self.store.get(id) {
            Some(v) => Some(v),
            None => {
                proof {
                    assert(false);
                }
                None
            },
        }
    }

    /// Deletes a file: only its uploader or an administrator may. The
    /// metadata row goes first and the blob second — the reverse of
    /// creation — so a crash leaves an orphaned blob, never a row
    /// referencing missing bytes.
    pub fn delete(&mut self, auth: &AuthContext, id: FileId, file_name: &str) -> (r: Result<
        (),
        ApiError,
    >)
        requires
            old(self).wf(),
        ensures
            final(self).wf(),
            spec_file_info(old(self).recs(), id, file_name@) is None ==> r == Err::<(), ApiError>(
                ApiError::NotFound,
            ) && final(self).recs() == old(self).recs() && final(self).objs() == old(self).objs(),
            spec_file_info(old(self).recs(), id, file_name@) matches Some(rec) ==> ({
                &&& rec.uploader_id != auth.user_id && !auth.is_admin ==> r == Err::<(), ApiError>(
                    ApiError::Unauthenticated,
                ) && final(self).recs() == old(self).recs() && final(self).objs() == old(
                    self,
                ).objs()
                &&& (rec.uploader_id == auth.user_id || auth.is_admin) ==> ({
                    &&& r is Ok
                    &&& record_with_id(final(self).recs(), id) is None
                    &&& stored_with_id(final(self).objs(), id) is None
                    &&& final(self).recs().len() == old(self).recs().len() - 1
                    &&& forall|id2: FileId|
                        id2 != id ==> record_with_id(final(self).recs(), id2) == record_with_id(
                            old(self).recs(),
                            id2,
                        ) && stored_with_id(final(self).objs(), id2) == stored_with_id(
                            old(self).objs(),
                            id2,
                        )
                })
            }),
    {
        let i = match self.find_index(id) {
            Some(i) => i,
            None => {
                return Err(ApiError::NotFound);
            },
        };
        if !str_eq(self.records[i].file_name.as_str(), file_name) {
            return Err(ApiError::NotFound);
        }
        if self.records[i].uploader_id != auth.user_id && !auth.is_admin {
            return Err(ApiError::Unauthenticated);
        }
        proof {
            lemma_assoc_remove(self.recs(), by_record_id(), i as int);
        }
        self.records.remove(i);
        let removed = self.store.remove(id);
        proof {
            assert(removed is Ok);
            assert forall|id2: FileId|
                ((#[trigger] record_with_id(self.recs(), id2)) is Some <==> stored_with_id(
                    self.objs(),
                    id2,
                ) is Some) by {
                if id2 != id {
                    assert(record_with_id(self.recs(), id2) == record_with_id(
                        old(self).recs(),
                        id2,
                    ));
                    assert(stored_with_id(self.objs(), id2) == stored_with_id(
                        old(self).objs(),
                        id2,
                    ));
                }
            }
        }
        Ok(())
    }

    /// One user's files, as the listing endpoint shows them: only the
    /// user may list them.
    pub fn files_of(&self, auth: &AuthContext, uploader: u128) -> (r: Result<
        Vec<FileRecord>,
        ApiError,
    >)
        ensures
            auth.user_id != uploader ==> r == Err::<Vec<FileRecord>, ApiError>(
                ApiError::Unauthenticated,
            ),
            auth.user_id == uploader ==> (r matches Ok(list) && list@ == self.recs().filter(
                uploaded_by(uploader),
            )),
    {
        if auth.user_id != uploader {
            return Err(ApiError::Unauthenticated);
        }
        proof {
            reveal_with_fuel(Seq::filter, 2);
        }
        let n = self.records.len();
        let mut out: Vec<FileRecord> = Vec::new();
        let mut i: usize = 0;
        while i < n
            invariant
                i <= n == self.recs().len(),
                out@ == self.recs().take(i as int).filter(uploaded_by(uploader)),
            decreases n - i,
        {
            proof {
                reveal_with_fuel(Seq::filter, 2);
                assert(self.recs().take(i + 1).drop_last() =~= self.recs().take(i as int));
                assert(self.recs().take(i + 1).last() == self.recs()[i as int]);
            }
            let rec = &self.records[i];
            if rec.uploader_id == uploader {
                let copied = FileRecord {
                    file_id: rec.file_id,
                    file_name: rec.file_name.clone(),
                    file_size: rec.file_size,
                    upload_date: rec.upload_date,
                    uploader_id: rec.uploader_id,
                };
                proof {
                    assert(copied == self.recs()[i as int]);
                }
                out.push(copied);
            }
            i = i + 1;
        }
        proof {
            assert(self.recs().take(n as int) =~= self.recs());
        }
        Ok(out)
    }

    /// Removes every file a user uploaded, rows and blobs both, as
    /// account deletion does.
    pub fn remove_files_of(&mut self, uploader: u128)
        requires
            old(self).wf(),
        ensures
            final(self).wf(),
            forall|id: FileId|
                #[trigger] record_with_id(final(self).recs(), id) == (
                match record_with_id(old(self).recs(), id) {
                    Some(rec) => if rec.uploader_id == uploader {
                        None
                    } else {
                        Some(rec)
                    },
                    None => None,
                }),
            forall|id: FileId|
                #[trigger] stored_with_id(final(self).objs(), id) == (
                match record_with_id(old(self).recs(), id) {
                    Some(rec) => if rec.uploader_id == uploader {
                        None
                    } else {
                        stored_with_id(old(self).objs(), id)
                    },
                    None => stored_with_id(old(self).objs(), id),
                }),
    {
        proof {
            reveal_with_fuel(Seq::filter, 2);
        }
        let n = self.records.len();
        let mut kept: Vec<FileRecord> = Vec::new();
        let mut i: usize = 0;
        while i < n
            invariant
                i <= n == self.recs().len(),
                self.recs() == old(self).recs(),
                self.objs() == old(self).objs(),
                kept@ == self.recs().take(i as int).filter(kept_record(uploader)),
            decreases n - i,
        {
            proof {
                reveal_with_fuel(Seq::filter, 2);
                assert(self.recs().take(i + 1).drop_last() =~= self.recs().take(i as int));
                assert(self.recs().take(i + 1).last() == self.recs()[i as int]);
            }
            let rec = &self.records[i];
            if rec.uploader_id != uploader {
                let copied = FileRecord {
                    file_id: rec.file_id,
                    file_name: rec.file_name.clone(),
                    file_size: rec.file_size,
                    upload_date: rec.upload_date,
                    uploader_id: rec.uploader_id,
                };
                proof {
                    assert(copied == self.recs()[i as int]);
                }
                kept.push(copied);
            }
            i = i + 1;
        }
        proof {
            assert(self.recs().take(n as int) =~= self.recs());
            lemma_assoc_filter(self.recs(), by_record_id(), kept_record(uploader));
        }
        self.records = kept;
        let mut objects: Vec<StoredObject> = Vec::new();
        self.store.swap_objects(&mut objects);
        let ghost all_objs = objects@;
        let mut kept_objs: Vec<StoredObject> = Vec::new();
        let ghost mut k: int = 0;
        while objects.len() > 0
            invariant
                0 <= k <= all_objs.len(),
                objects@ == all_objs.skip(k),
                kept_objs@ == all_objs.take(k).filter(has_row(self.recs())),
                self.recs() == old(self).recs().filter(kept_record(uploader)),
                self.objs().len() == 0,
            decreases objects@.len(),
        {
            proof {
                reveal_with_fuel(Seq::filter, 2);
                assert(all_objs.skip(k)[0] == all_objs[k]);
                assert(all_objs.skip(k).remove(0) =~= all_objs.skip(k + 1));
                assert(all_objs.take(k + 1).drop_last() =~= all_objs.take(k));
                assert(all_objs.take(k + 1).last() == all_objs[k]);
            }
            let o = objects.remove(0);
            if self.find_index(o.file_id).is_some() {
                kept_objs.push(o);
            }
            proof {
                k = k + 1;
            }
        }
        proof {
            assert(all_objs.take(k) =~= all_objs);
            lemma_assoc_filter(all_objs, by_object_id(), has_row(self.recs()));
        }
        self.store.swap_objects(&mut kept_objs);
        proof {
            let new_recs = self.recs();
            let prior_recs = old(self).recs();
            assert forall|id: FileId|
                #[trigger] stored_with_id(self.objs(), id) == (
                match record_with_id(prior_recs, id) {
                    Some(rec) => if rec.uploader_id == uploader {
                        None
                    } else {
                        stored_with_id(old(self).objs(), id)
                    },
                    None => stored_with_id(old(self).objs(), id),
                }) by {
                lemma_assoc_found(all_objs, by_object_id(), id);
                if stored_with_id(all_objs, id) is Some {
                    let o = stored_with_id(all_objs, id)->Some_0;
                    assert(o.file_id == id);
                    assert(stored_with_id(self.objs(), id) == (
                    if record_with_id(new_recs, id) is Some {
                        Some(o)
                    } else {
                        None
                    }));
                }
            }
            assert forall|id: FileId|
                ((#[trigger] record_with_id(self.recs(), id)) is Some <==> stored_with_id(
                    self.objs(),
                    id,
                ) is Some) by {
                assert(stored_with_id(self.objs(), id) == (
                match record_with_id(prior_recs, id) {
                    Some(rec) => if rec.uploader_id == uploader {
                        None
                    } else {
                        stored_with_id(old(self).objs(), id)
                    },
                    None => stored_with_id(old(self).objs(), id),
                }));
            }
        }
    }

    /// The total stored size of one user's files, saturating at the
    /// counter's maximum.
    pub fn total_size_of(&self, uploader: u128) -> (r: u64)
        ensures
            r == if sizes_sum(self.recs(), uploader) <= u64::MAX {
                sizes_sum(self.recs(), uploader)
            } else {
                u64::MAX as nat
            },
    {
        let n = self.records.len();
        let mut acc: u64 = 0;
        let mut i: usize = 0;
        while i < n
            invariant
                i <= n == self.recs().len(),
                acc == if sizes_sum(self.recs().take(i as int), uploader) <= u64::MAX {
                    sizes_sum(self.recs().take(i as int), uploader)
                } else {
                    u64::MAX as nat
                },
            decreases n - i,
        {
            proof {
                assert(self.recs().take(i + 1).drop_last() =~= self.recs().take(i as int));
                assert(self.recs().take(i + 1).last() == self.recs()[i as int]);
            }
            if self.records[i].uploader_id == uploader {
                acc = acc.saturating_add(self.records[i].file_size);
            }
            i = i + 1;
        }
        proof {
            assert(self.recs().take(n as int) =~= self.recs());
        }
        acc
    }
}

/// The public URL a freshly uploaded file is announced under:
/// `{base}/files/{id}/{name}` with the identifier in lowercase hex.
pub fn download_url(base: &str, file_id: FileId, file_name: &str) -> (r: String)
    ensures
        r@ == base@ + "/files/"@ + crate::hexfmt::hex_u64(file_id@ as nat) + "/"@ + file_name@,
{
    let mut r = String::from_str(base);
    r.append("/files/");
    let id_hex = file_id.to_hex();
    r.append(id_hex.as_str());
    r.append("/");
    r.append(file_name);
    proof {
        assert(r@ =~= base@ + "/files/"@ + crate::hexfmt::hex_u64(file_id@ as nat) + "/"@
            + file_name@);
    }
    r
}

/// Deleting a file removes both the metadata row and the blob: once
/// both are gone, a metadata lookup and a content read both find
/// nothing, whatever name is asked for.
pub proof fn lemma_delete_removes_both(
    recs: Seq<FileRecord>,
    objs: Seq<StoredObject>,
    id: FileId,
    name: Seq<char>,
)
    requires
        record_with_id(recs, id) is None,
        stored_with_id(objs, id) is None,
    ensures
        spec_file_info(recs, id, name) is None,
        spec_get(objs, id) is None,
{
}

} // verus!
