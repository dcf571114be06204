//! The catalog: rows keyed by an auto-increment id, with the content
//! digest and the blob path each unique among live rows, held in
//! creation order. The caller mirrors every change onto its durable
//! relational store.

use vstd::prelude::*;
use vstd::string::*;
use crate::errors::CatalogError;
use crate::record::{ImageRecord, copy_opt_string};
use crate::text::{is_substring, all_space, is_blank};

verus! {

/// A row matches a search term when the term occurs in its file name or
/// in its description.
pub open spec fn matches_query(rec: ImageRecord, q: Seq<char>) -> bool {
    is_substring(rec.filename@, q) || (rec.description matches Some(d) && is_substring(d@, q))
}

/// The rows that match `q`, newest first.
pub open spec fn search_spec(rows: Seq<ImageRecord>, q: Seq<char>) -> Seq<ImageRecord>
    decreases rows.len(),
{
    if rows.len() == 0 {
        Seq::empty()
    } else {
        let rest = search_spec(rows.drop_last(), q);
        if matches_query(rows.last(), q) {
            seq![rows.last()] + rest
        } else {
            rest
        }
    }
}

/// The table of live image rows.
pub struct Catalog {
    records: Vec<ImageRecord>,
    next_id: i32,
}

impl Catalog {
    /// The live rows, oldest first.
    pub closed spec fn rows(&self) -> Seq<ImageRecord> {
        self.records@
    }

    /// The id the next inserted row will take.
    pub closed spec fn spec_next_id(&self) -> int {
        self.next_id as int
    }

    /// Well-formed: ids are positive, below the next id and unique;
    /// digests and paths are unique; rows sit in creation order.
    pub open spec fn wf(&self) -> bool {
        &&& 1 <= self.spec_next_id() <= i32::MAX
        &&& forall|i: int|
            0 <= i < self.rows().len() ==> 1 <= (#[trigger] self.rows()[i]).id
                < self.spec_next_id()
        &&& forall|i: int, j: int|
            0 <= i < j < self.rows().len() ==> (#[trigger] self.rows()[i]).id
                != (#[trigger] self.rows()[j]).id
        &&& forall|i: int, j: int|
            0 <= i < j < self.rows().len() ==> (#[trigger] self.rows()[i]).hash@
                != (#[trigger] self.rows()[j]).hash@
        &&& forall|i: int, j: int|
            0 <= i < j < self.rows().len() ==> (#[trigger] self.rows()[i]).path@
                != (#[trigger] self.rows()[j]).path@
        &&& forall|i: int, j: int|
            0 <= i <= j < self.rows().len() ==> (#[trigger] self.rows()[i]).created_at
                <= (#[trigger] self.rows()[j]).created_at
    }

    /// A live row carries this digest.
    pub open spec fn spec_has_hash(&self, h: Seq<char>) -> bool {
        exists|i: int| 0 <= i < self.rows().len() && (#[trigger] self.rows()[i]).hash@ == h
    }

    /// A live row points at this path.
    pub open spec fn spec_has_path(&self, p: Seq<char>) -> bool {
        exists|i: int| 0 <= i < self.rows().len() && (#[trigger] self.rows()[i]).path@ == p
    }

    /// A live row carries this id.
    pub open spec fn spec_has_id(&self, id: int) -> bool {
        exists|i: int| 0 <= i < self.rows().len() && (#[trigger] self.rows()[i]).id == id
    }

    /// A live row other than `id` shows this file name.
    pub open spec fn spec_name_taken_by_other(&self, name: Seq<char>, id: int) -> bool {
        exists|i: int|
            0 <= i < self.rows().len() && (#[trigger] self.rows()[i]).filename@ == name
                && self.rows()[i].id != id
    }

    /// Where the row with `id` sits.
    pub open spec fn ix_of_id(&self, id: int) -> int {
        choose|i: int| 0 <= i < self.rows().len() && (#[trigger] self.rows()[i]).id == id
    }

    /// The row with `id`.
    pub open spec fn row_of_id(&self, id: int) -> ImageRecord {
        self.rows()[self.ix_of_id(id)]
    }

    /// The creation stamp a row inserted now would take: the caller's
    /// clock, clamped so creation order never runs backwards.
    pub open spec fn next_stamp(&self, now: u64) -> u64 {
        if self.rows().len() == 0 {
            now
        } else if now >= self.rows().last().created_at {
            now
        } else {
            self.rows().last().created_at
        }
    }

    /// With `wf`, an id picks at most one row, so `ix_of_id` is it.
    pub proof fn lemma_ix_of_id(&self, id: int, w: int)
        requires
            self.wf(),
            0 <= w < self.rows().len(),
            self.rows()[w].id == id,
        ensures
            self.ix_of_id(id) == w,
            self.spec_has_id(id),
    {
        assert(self.spec_has_id(id));
        let ix = self.ix_of_id(id);
        if ix < w {
            assert(self.rows()[ix].id != self.rows()[w].id);
        } else if ix > w {
            assert(self.rows()[w].id != self.rows()[ix].id);
        }
    }

    /// An empty catalog whose first row will take id 1.
    pub fn new() -> (r: Catalog)
        ensures
            r.wf(),
            r.rows() =~= Seq::<ImageRecord>::empty(),
            r.spec_next_id() == 1,
    {
        Catalog { records: Vec::new(), next_id: 1 }
    }

    /// How many rows are live.
    pub fn image_count(&self) -> (n: usize)
        ensures
            n == self.rows().len(),
    {
        self.records.len()
    }

    /// The id the next inserted row will take.
    pub fn peek_next_id(&self) -> (id: i32)
        ensures
            id as int == self.spec_next_id(),
    {
        self.next_id
    }

    /// Whether a live row carries this digest: the dedup gate.
    pub fn image_exists_by_hash(&self, hash: &String) -> (b: bool)
        ensures
            b == self.spec_has_hash(hash@),
    {
        let n = self.records.len();
        let mut i: usize = 0;
        while i < n
            invariant
                n == self.rows().len(),
                0 <= i <= n,
                forall|t: int| 0 <= t < i ==> (#[trigger] self.rows()[t]).hash@ != hash@,
            decreases n - i,
        {
            if self.records[i].hash.eq(hash) {
                assert(self.rows()[i as int].hash@ == hash@);
                return true;
            }
            i = i + 1;
        }
        assert(!self.spec_has_hash(hash@)) by {
            if self.spec_has_hash(hash@) {
                let w = choose|w: int|
                    0 <= w < self.rows().len() && (#[trigger] self.rows()[w]).hash@ == hash@;
                assert(self.rows()[w].hash@ != hash@);
            }
        }
        false
    }

    /// Whether a live row points at this path.
    pub fn image_exists_by_path(&self, path: &String) -> (b: bool)
        ensures
            b == self.spec_has_path(path@),
    {
        let n = self.records.len();
        let mut i: usize = 0;
        while i < n
            invariant
                n == self.rows().len(),
                0 <= i <= n,
                forall|t: int| 0 <= t < i ==> (#[trigger] self.rows()[t]).path@ != path@,
            decreases n - i,
        {
            if self.records[i].path.eq(path) {
                assert(self.rows()[i as int].path@ == path@);
                return true;
            }
            i = i + 1;
        }
        assert(!self.spec_has_path(path@)) by {
            if self.spec_has_path(path@) {
                let w = choose|w: int|
                    0 <= w < self.rows().len() && (#[trigger] self.rows()[w]).path@ == path@;
                assert(self.rows()[w].path@ != path@);
            }
        }
        false
    }

    /// A live row other than `id` shows this file name: the rename
    /// collision gate.
    pub fn filename_taken_by_other(&self, name: &String, id: i32) -> (b: bool)
        ensures
            b == self.spec_name_taken_by_other(name@, id as int),
    {
        let n = self.records.len();
        let mut i: usize = 0;
        while i < n
            invariant
                n == self.rows().len(),
                0 <= i <= n,
                forall|t: int|
                    0 <= t < i ==> !((#[trigger] self.rows()[t]).filename@ == name@
                        && self.rows()[t].id != id),
            decreases n - i,
        {
            if self.records[i].filename.eq(name) && self.records[i].id != id {
                assert(self.rows()[i as int].filename@ == name@ && self.rows()[i as int].id != id);
                return true;
            }
            i = i + 1;
        }
        assert(!self.spec_name_taken_by_other(name@, id as int)) by {
            if self.spec_name_taken_by_other(name@, id as int) {
                let w = choose|w: int|
                    0 <= w < self.rows().len() && (#[trigger] self.rows()[w]).filename@ == name@
                        && self.rows()[w].id != id;
                assert(!(self.rows()[w].filename@ == name@ && self.rows()[w].id != id));
            }
        }
        false
    }

    /// Where the row with `id` sits, if it is live.
    fn find_ix_by_id(&self, id: i32) -> (r: Option<usize>)
        requires
            self.wf(),
        ensures
            r is None ==> !self.spec_has_id(id as int),
            r matches Some(i) ==> self.spec_has_id(id as int) && i as int == self.ix_of_id(
                id as int,
            ) && i < self.rows().len() && self.rows()[i as int].id == id,
    {
        let n = self.records.len();
        let mut i: usize = 0;
        while i < n
            invariant
                n == self.rows().len(),
                0 <= i <= n,
                self.wf(),
                forall|t: int| 0 <= t < i ==> (#[trigger] self.rows()[t]).id != id,
            decreases n - i,
        {
            if self.records[i].id == id {
                proof {
                    self.lemma_ix_of_id(id as int, i as int);
                }
                return Some(i);
            }
            i = i + 1;
        }
        assert(!self.spec_has_id(id as int)) by {
            if self.spec_has_id(id as int) {
                let w = choose|w: int|
                    0 <= w < self.rows().len() && (#[trigger] self.rows()[w]).id == id;
                assert(self.rows()[w].id != id);
            }
        }
        None
    }

    /// Inserts a fresh row and reports its id. Refused when the digest
    /// or the path is already live, or when the id space is spent; a
    /// refusal leaves the catalog as it was.
    pub fn insert_image(
        &mut self,
        filename: &String,
        path: &String,
        size: i64,
        hash: &String,
        now: u64,
    ) -> (r: Result<i32, CatalogError>)
        requires
            old(self).wf(),
        ensures
            final(self).wf(),
            old(self).spec_has_hash(hash@) ==> r == Err::<i32, CatalogError>(
                CatalogError::DuplicateHash,
            ) && *final(self) == *old(self),
            !old(self).spec_has_hash(hash@) && old(self).spec_has_path(path@) ==> r == Err::<
                i32,
                CatalogError,
            >(CatalogError::DuplicatePath) && *final(self) == *old(self),
            !old(self).spec_has_hash(hash@) && !old(self).spec_has_path(path@) && old(
                self,
            ).spec_next_id() == i32::MAX ==> r == Err::<i32, CatalogError>(
                CatalogError::ConstraintViolation,
            ) && *final(self) == *old(self),
            !old(self).spec_has_hash(hash@) && !old(self).spec_has_path(path@) && old(
                self,
            ).spec_next_id() < i32::MAX ==> {
                &&& r matches Ok(id) && id as int == old(self).spec_next_id()
                &&& final(self).spec_next_id() == old(self).spec_next_id() + 1
                &&& final(self).rows() == old(self).rows().push(
                    (ImageRecord {
                        id: old(self).spec_next_id() as i32,
                        filename: *filename,
                        path: *path,
                        thumbnail_path: None,
                        size: size,
                        hash: *hash,
                        description: None,
                        created_at: old(self).next_stamp(now),
                        updated_at: old(self).next_stamp(now),
                    }),
                )
            },
    {
        if self.image_exists_by_hash(hash) {
            return Err(CatalogError::DuplicateHash);
        }
        if self.image_exists_by_path(path) {
            return Err(CatalogError::DuplicatePath);
        }
        if self.next_id == i32::MAX {
            return Err(CatalogError::ConstraintViolation);
        }
        let n = self.records.len();
        let stamp: u64 = if n == 0 {
            now
        } else {
            let last = self.records[n - 1].created_at;
            if now >= last {
                now
            } else {
                last
            }
        };
        assert(stamp == old(self).next_stamp(now));
        let id = self.next_id;
        let row = ImageRecord {
            id: id,
            filename: filename.clone(),
            path: path.clone(),
            thumbnail_path: None,
            size: size,
            hash: hash.clone(),
            description: None,
            created_at: stamp,
            updated_at: stamp,
        };
        let ghost pre = self.rows();
        self.records.push(row);
        self.next_id = id + 1;
        proof {
            let rows = self.rows();
            assert(rows =~= pre.push(row));
            assert forall|i: int, j: int| 0 <= i < j < rows.len() implies (#[trigger] rows[i]).id
                != (#[trigger] rows[j]).id by {
                if j == rows.len() - 1 {
                    assert(pre[i].id < id);
                }
            }
            assert forall|i: int, j: int| 0 <= i < j < rows.len() implies (#[trigger] rows[i]).hash@
                != (#[trigger] rows[j]).hash@ by {
                if j == rows.len() - 1 {
                    if pre[i].hash@ == hash@ {
                        assert(old(self).spec_has_hash(hash@));
                    }
                }
            }
            assert forall|i: int, j: int| 0 <= i < j < rows.len() implies (#[trigger] rows[i]).path@
                != (#[trigger] rows[j]).path@ by {
                if j == rows.len() - 1 {
                    if pre[i].path@ == path@ {
                        assert(old(self).spec_has_path(path@));
                    }
                }
            }
            assert forall|i: int, j: int|
                0 <= i <= j < rows.len() implies (#[trigger] rows[i]).created_at
                <= (#[trigger] rows[j]).created_at by {
                if j == rows.len() - 1 && i < j {
                    assert(pre[i].created_at <= pre[pre.len() - 1].created_at);
                }
            }
        }
        Ok(id)
    }

    /// Restores a durably stored row under its original id, as a caller
    /// replaying its store at startup does. Rows must arrive in id
    /// order: an id below the next is refused, as is a digest or path
    /// already live, and the id space must not be spent.
    pub fn restore_image(
        &mut self,
        id: i32,
        filename: &String,
        path: &String,
        thumbnail_path: &Option<String>,
        size: i64,
        hash: &String,
        description: &Option<String>,
        created_at: u64,
        updated_at: u64,
    ) -> (r: Result<(), CatalogError>)
        requires
            old(self).wf(),
        ensures
            final(self).wf(),
            old(self).spec_has_hash(hash@) ==> r == Err::<(), CatalogError>(
                CatalogError::DuplicateHash,
            ) && *final(self) == *old(self),
            !old(self).spec_has_hash(hash@) && old(self).spec_has_path(path@) ==> r == Err::<
                (),
                CatalogError,
            >(CatalogError::DuplicatePath) && *final(self) == *old(self),
            !old(self).spec_has_hash(hash@) && !old(self).spec_has_path(path@) && !(
            old(self).spec_next_id() <= id < i32::MAX) ==> r == Err::<(), CatalogError>(
                CatalogError::ConstraintViolation,
            ) && *final(self) == *old(self),
            !old(self).spec_has_hash(hash@) && !old(self).spec_has_path(path@)
                && old(self).spec_next_id() <= id < i32::MAX ==> r == Ok::<(), CatalogError>(())
                && final(self).spec_next_id() == id + 1 && final(self).rows() == old(
                self,
            ).rows().push(
                (ImageRecord {
                    id: id,
                    filename: *filename,
                    path: *path,
                    thumbnail_path: *thumbnail_path,
                    size: size,
                    hash: *hash,
                    description: *description,
                    created_at: old(self).next_stamp(created_at),
                    updated_at: updated_at,
                }),
            ),
    {
        if self.image_exists_by_hash(hash) {
            return Err(CatalogError::DuplicateHash);
        }
        if self.image_exists_by_path(path) {
            return Err(CatalogError::DuplicatePath);
        }
        if id < self.next_id || id == i32::MAX {
            return Err(CatalogError::ConstraintViolation);
        }
        let n = self.records.len();
        let stamp: u64 = if n == 0 {
            created_at
        } else {
            let last = self.records[n - 1].created_at;
            if created_at >= last {
                created_at
            } else {
                last
            }
        };
        assert(stamp == old(self).next_stamp(created_at));
        let row = ImageRecord {
            id: id,
            filename: filename.clone(),
            path: path.clone(),
            thumbnail_path: copy_opt_string(thumbnail_path),
            size: size,
            hash: hash.clone(),
            description: copy_opt_string(description),
            created_at: stamp,
            updated_at: updated_at,
        };
        let ghost pre = self.rows();
        self.records.push(row);
        self.next_id = id + 1;
        proof {
            let rows = self.rows();
            assert(rows =~= pre.push(row));
            assert forall|i: int, j: int| 0 <= i < j < rows.len() implies (#[trigger] rows[i]).id
                != (#[trigger] rows[j]).id by {
                if j == rows.len() - 1 {
                    assert(pre[i].id < old(self).spec_next_id());
                }
            }
            assert forall|i: int, j: int| 0 <= i < j < rows.len() implies (#[trigger] rows[i]).hash@
                != (#[trigger] rows[j]).hash@ by {
                if j == rows.len() - 1 {
                    if pre[i].hash@ == hash@ {
                        assert(old(self).spec_has_hash(hash@));
                    }
                }
            }
            assert forall|i: int, j: int| 0 <= i < j < rows.len() implies (#[trigger] rows[i]).path@
                != (#[trigger] rows[j]).path@ by {
                if j == rows.len() - 1 {
                    if pre[i].path@ == path@ {
                        assert(old(self).spec_has_path(path@));
                    }
                }
            }
            assert forall|i: int, j: int|
                0 <= i <= j < rows.len() implies (#[trigger] rows[i]).created_at
                <= (#[trigger] rows[j]).created_at by {
                if j == rows.len() - 1 && i < j {
                    assert(pre[i].created_at <= pre[pre.len() - 1].created_at);
                }
            }
        }
        Ok(())
    }

    /// The row with `id`, or `NotFound`.
    pub fn get_image_by_id(&self, id: i32) -> (r: Result<ImageRecord, CatalogError>)
        requires
            self.wf(),
        ensures
            !self.spec_has_id(id as int) ==> r == Err::<ImageRecord, CatalogError>(
                CatalogError::NotFound,
            ),
            self.spec_has_id(id as int) ==> (r matches Ok(rec) && rec == self.row_of_id(
                id as int,
            )),
            r == lookup_spec(*self, id as int),
    {
        match self.find_ix_by_id(id) {
            Some(i) => Ok(self.records[i].copy_rec()),
            None => Err(CatalogError::NotFound),
        }
    }

    /// Every live row, newest first.
    pub fn get_all_images(&self) -> (r: Vec<ImageRecord>)
        ensures
            r@.len() == self.rows().len(),
            forall|k: int|
                0 <= k < r@.len() ==> r@[k] == self.rows()[self.rows().len() - 1 - k],
    {
        let n = self.records.len();
        let mut out: Vec<ImageRecord> = Vec::new();
        let mut i: usize = 0;
        while i < n
            invariant
                n == self.rows().len(),
                0 <= i <= n,
                out@.len() == i,
                forall|k: int| 0 <= k < i ==> out@[k] == self.rows()[i - 1 - k],
            decreases n - i,
        {
            let rec = self.records[i].copy_rec();
            out.insert(0, rec);
            i = i + 1;
        }
        out
    }

    /// The rows that match `query`, newest first; a blank query lists
    /// every row, exactly as `get_all_images` does.
    pub fn search_images(&self, query: &String) -> (r: Vec<ImageRecord>)
        ensures
            all_space(query@) ==> r@.len() == self.rows().len() && forall|k: int|
                0 <= k < r@.len() ==> r@[k] == self.rows()[self.rows().len() - 1 - k],
            !all_space(query@) ==> r@ == search_spec(self.rows(), query@),
    {
        if is_blank(query.as_str()) {
            return self.get_all_images();
        }
        let n = self.records.len();
        let mut out: Vec<ImageRecord> = Vec::new();
        let mut i: usize = 0;
        while i < n
            invariant
                n == self.rows().len(),
                0 <= i <= n,
                out@ =~= search_spec(self.rows().subrange(0, i as int), query@),
            decreases n - i,
        {
            let hit = if contains_sub_rec(&self.records[i], query) {
                true
            } else {
                false
            };
            let ghost pre = out@;
            if hit {
                let rec = self.records[i].copy_rec();
                out.insert(0, rec);
            }
            i = i + 1;
            proof {
                let taken = self.rows().subrange(0, i as int);
                assert(taken.drop_last() =~= self.rows().subrange(0, i - 1));
                assert(taken.last() == self.rows()[i - 1]);
                if matches_query(self.rows()[i - 1], query@) {
                    assert(out@ =~= seq![self.rows()[i - 1]] + pre);
                } else {
                    assert(out@ == pre);
                }
            }
        }
        proof {
            assert(self.rows().subrange(0, n as int) =~= self.rows());
        }
        out
    }

    /// Renames the row with `id`: the file name and the path move
    /// together, and the update stamp is set. Refused, leaving the
    /// catalog as it was, when the id is not live or another live row
    /// already points at the new path.
    pub fn update_filename_and_path(
        &mut self,
        id: i32,
        new_filename: &String,
        new_path: &String,
        now: u64,
    ) -> (r: Result<(), CatalogError>)
        requires
            old(self).wf(),
        ensures
            final(self).wf(),
            final(self).spec_next_id() == old(self).spec_next_id(),
            !old(self).spec_has_id(id as int) ==> r == Err::<(), CatalogError>(
                CatalogError::NotFound,
            ) && *final(self) == *old(self),
            old(self).spec_has_id(id as int) && (exists|i: int|
                0 <= i < old(self).rows().len() && (#[trigger] old(self).rows()[i]).path@
                    == new_path@ && old(self).rows()[i].id != id) ==> r == Err::<
                (),
                CatalogError,
            >(CatalogError::DuplicatePath) && *final(self) == *old(self),
            old(self).spec_has_id(id as int) && !(exists|i: int|
                0 <= i < old(self).rows().len() && (#[trigger] old(self).rows()[i]).path@
                    == new_path@ && old(self).rows()[i].id != id) ==> r == Ok::<
                (),
                CatalogError,
            >(()) && final(self).rows() == old(self).rows().update(
                old(self).ix_of_id(id as int),
                (ImageRecord {
                    filename: *new_filename,
                    path: *new_path,
                    updated_at: now,
                    ..old(self).row_of_id(id as int)
                }),
            ),
    {
        let ix = match self.find_ix_by_id(id) {
            Some(i) => i,
            None => {
                return Err(CatalogError::NotFound);
            },
        };
        let n = self.records.len();
        let mut i: usize = 0;
        while i < n
            invariant
                old(self) == self,
                self.wf(),
                old(self).spec_has_id(id as int),
                n == self.rows().len(),
                0 <= i <= n,
                forall|t: int|
                    0 <= t < i ==> !((#[trigger] self.rows()[t]).path@ == new_path@
                        && self.rows()[t].id != id),
            decreases n - i,
        {
            if self.records[i].path.eq(new_path) && self.records[i].id != id {
                assert(self.rows()[i as int].path@ == new_path@ && self.rows()[i as int].id != id);
                return Err(CatalogError::DuplicatePath);
            }
            i = i + 1;
        }
        proof {
            if exists|t: int|
                0 <= t < self.rows().len() && (#[trigger] self.rows()[t]).path@ == new_path@
                    && self.rows()[t].id != id {
                let w = choose|t: int|
                    0 <= t < self.rows().len() && (#[trigger] self.rows()[t]).path@ == new_path@
                        && self.rows()[t].id != id;
                assert(false);
            }
        }
        let old_row = self.records[ix].copy_rec();
        let updated = ImageRecord {
            id: old_row.id,
            filename: new_filename.clone(),
            path: new_path.clone(),
            thumbnail_path: old_row.thumbnail_path,
            size: old_row.size,
            hash: old_row.hash,
            description: old_row.description,
            created_at: old_row.created_at,
            updated_at: now,
        };
        let ghost pre = self.rows();
        self.records[ix] = updated;
        proof {
            let rows = self.rows();
            assert(rows =~= pre.update(
                ix as int,
                (ImageRecord {
                    filename: *new_filename,
                    path: *new_path,
                    updated_at: now,
                    ..old(self).row_of_id(id as int)
                }),
            ));
            assert forall|a: int, b: int| 0 <= a < b < rows.len() implies (#[trigger] rows[a]).path@
                != (#[trigger] rows[b]).path@ by {
                if a != ix && b != ix {
                    assert(pre[a].path@ != pre[b].path@);
                } else if a == ix {
                    assert(pre[b].id != id);
                } else {
                    assert(pre[a].id != id);
                }
            }
        }
        Ok(())
    }

    /// Replaces the description of the row with `id` and sets the update
    /// stamp. Refused when the id is not live.
    pub fn update_description(
        &mut self,
        id: i32,
        description: &Option<String>,
        now: u64,
    ) -> (r: Result<(), CatalogError>)
        requires
            old(self).wf(),
        ensures
            final(self).wf(),
            final(self).spec_next_id() == old(self).spec_next_id(),
            !old(self).spec_has_id(id as int) ==> r == Err::<(), CatalogError>(
                CatalogError::NotFound,
            ) && *final(self) == *old(self),
            old(self).spec_has_id(id as int) ==> r == Ok::<(), CatalogError>(()) && final(self).rows() == old(self).rows().update(
                old(self).ix_of_id(id as int),
                (ImageRecord {
                    description: *description,
                    updated_at: now,
                    ..old(self).row_of_id(id as int)
                }),
            ),
    {
        let ix = match self.find_ix_by_id(id) {
            Some(i) => i,
            None => {
                return Err(CatalogError::NotFound);
            },
        };
        let old_row = self.records[ix].copy_rec();
        let updated = ImageRecord {
            id: old_row.id,
            filename: old_row.filename,
            path: old_row.path,
            thumbnail_path: old_row.thumbnail_path,
            size: old_row.size,
            hash: old_row.hash,
            description: copy_opt_string(description),
            created_at: old_row.created_at,
            updated_at: now,
        };
        let ghost pre = self.rows();
        self.records[ix] = updated;
        proof {
            assert(self.rows() =~= pre.update(
                ix as int,
                (ImageRecord {
                    description: *description,
                    updated_at: now,
                    ..old(self).row_of_id(id as int)
                }),
            ));
        }
        Ok(())
    }

    /// Removes the row with `id` and hands it back, so the caller can
    /// remove the backing file too. Refused when the id is not live.
    pub fn delete_image(&mut self, id: i32) -> (r: Result<ImageRecord, CatalogError>)
        requires
            old(self).wf(),
        ensures
            final(self).wf(),
            final(self).spec_next_id() == old(self).spec_next_id(),
            !old(self).spec_has_id(id as int) ==> r == Err::<ImageRecord, CatalogError>(
                CatalogError::NotFound,
            ) && *final(self) == *old(self),
            old(self).spec_has_id(id as int) ==> (r matches Ok(rec) && rec == old(
                self,
            ).row_of_id(id as int) && final(self).rows() == old(self).rows().remove(
                old(self).ix_of_id(id as int),
            )),
            !final(self).spec_has_id(id as int),
    {
        let ix = match self.find_ix_by_id(id) {
            Some(i) => i,
            None => {
                return Err(CatalogError::NotFound);
            },
        };
        let rec = self.records[ix].copy_rec();
        let ghost pre = self.rows();
        self.records.remove(ix);
        proof {
            let rows = self.rows();
            assert(rows =~= pre.remove(ix as int));
            assert forall|a: int, b: int| 0 <= a < b < rows.len() implies (#[trigger] rows[a]).id
                != (#[trigger] rows[b]).id && (#[trigger] rows[a]).hash@
                != (#[trigger] rows[b]).hash@ && (#[trigger] rows[a]).path@
                != (#[trigger] rows[b]).path@ && rows[a].created_at <= rows[b].created_at by {
                let a2 = if a < ix { a } else { a + 1 };
                let b2 = if b < ix { b } else { b + 1 };
                assert(rows[a] == pre[a2]);
                assert(rows[b] == pre[b2]);
            }
            assert(!self.spec_has_id(id as int)) by {
                if self.spec_has_id(id as int) {
                    let w = choose|w: int|
                        0 <= w < rows.len() && (#[trigger] rows[w]).id == id;
                    let w2 = if w < ix { w } else { w + 1 };
                    assert(pre[w2].id == id);
                    if w2 != ix {
                        assert(pre[w2].id != pre[ix as int].id || pre[ix as int].id
                            != pre[w2].id);
                    }
                }
            }
        }
        Ok(rec)
    }
}

/// Whether a row matches the search term.
fn contains_sub_rec(rec: &ImageRecord, query: &String) -> (b: bool)
    ensures
        b == matches_query(*rec, query@),
{
    if crate::text::contains_sub(rec.filename.as_str(), query.as_str()) {
        return true;
    }
    match &rec.description {
        Some(d) => crate::text::contains_sub(d.as_str(), query.as_str()),
        None => false,
    }
}

/// How many live rows carry the digest `h`.
pub open spec fn count_hash(rows: Seq<ImageRecord>, h: Seq<char>) -> int
    decreases rows.len(),
{
    if rows.len() == 0 {
        0
    } else {
        count_hash(rows.drop_last(), h) + if rows.last().hash@ == h {
            1int
        } else {
            0int
        }
    }
}

/// No row carries `h`: the count is zero.
proof fn lemma_count_hash_zero(rows: Seq<ImageRecord>, h: Seq<char>)
    requires
        forall|i: int| 0 <= i < rows.len() ==> (#[trigger] rows[i]).hash@ != h,
    ensures
        count_hash(rows, h) == 0,
    decreases rows.len(),
{
    if rows.len() > 0 {
        lemma_count_hash_zero(rows.drop_last(), h);
    }
}

/// With pairwise-distinct digests, a digest occupies at most one row,
/// and exactly one when it is present at all.
proof fn lemma_count_hash_unique_rows(rows: Seq<ImageRecord>, h: Seq<char>)
    requires
        forall|i: int, j: int|
            0 <= i < j < rows.len() ==> (#[trigger] rows[i]).hash@ != (#[trigger] rows[j]).hash@,
    ensures
        count_hash(rows, h) <= 1,
        (exists|i: int| 0 <= i < rows.len() && (#[trigger] rows[i]).hash@ == h) <==> count_hash(
            rows,
            h,
        ) == 1,
        count_hash(rows, h) >= 0,
    decreases rows.len(),
{
    if rows.len() > 0 {
        let rest = rows.drop_last();
        lemma_count_hash_unique_rows(rest, h);
        if rows.last().hash@ == h {
            assert forall|i: int| 0 <= i < rest.len() implies (#[trigger] rest[i]).hash@ != h by {
                assert(rows[i].hash@ != rows[rows.len() - 1].hash@);
            }
            lemma_count_hash_zero(rest, h);
            assert(rows[rows.len() - 1].hash@ == h);
        } else {
            if exists|i: int| 0 <= i < rows.len() && (#[trigger] rows[i]).hash@ == h {
                let w = choose|i: int| 0 <= i < rows.len() && (#[trigger] rows[i]).hash@ == h;
                assert(w < rows.len() - 1);
                assert(rest[w].hash@ == h);
            }
            if exists|i: int| 0 <= i < rest.len() && (#[trigger] rest[i]).hash@ == h {
                let w = choose|i: int| 0 <= i < rest.len() && (#[trigger] rest[i]).hash@ == h;
                assert(rows[w].hash@ == h);
            }
        }
    }
}

/// Byte-identical content never occupies two rows: in a well-formed
/// catalog a digest that is present at all is present exactly once, so
/// ingesting the same bytes again leaves its row count at one.
pub proof fn lemma_hash_count_unique(cat: Catalog, h: Seq<char>)
    requires
        cat.wf(),
    ensures
        count_hash(cat.rows(), h) <= 1,
        cat.spec_has_hash(h) <==> count_hash(cat.rows(), h) == 1,
{
    lemma_count_hash_unique_rows(cat.rows(), h);
}

/// What a lookup answers, as a value.
pub open spec fn lookup_spec(cat: Catalog, id: int) -> Result<ImageRecord, CatalogError> {
    if cat.spec_has_id(id) {
        Ok(cat.row_of_id(id))
    } else {
        Err(CatalogError::NotFound)
    }
}

/// A deleted id stays gone: once no live row carries it, a lookup
/// refuses with `NotFound`, and a file endpoint keyed on the id has no
/// row left to serve.
pub proof fn lemma_deleted_id_lookup_fails(cat: Catalog, id: int)
    requires
        !cat.spec_has_id(id),
    ensures
        lookup_spec(cat, id) == Err::<ImageRecord, CatalogError>(CatalogError::NotFound),
{
}

/// The empty search term matches every row, so searching with it yields
/// every live row, newest first — the same rows in the same order as
/// listing them all.
pub proof fn lemma_search_empty_lists_all(rows: Seq<ImageRecord>)
    ensures
        search_spec(rows, Seq::empty()).len() == rows.len(),
        forall|k: int|
            0 <= k < rows.len() ==> search_spec(rows, Seq::empty())[k] == rows[rows.len() - 1 - k],
    decreases rows.len(),
{
    if rows.len() > 0 {
        let q = Seq::<char>::empty();
        lemma_search_empty_lists_all(rows.drop_last());
        assert(is_substring(rows.last().filename@, q)) by {
            assert(rows.last().filename@.subrange(0, 0 + q.len() as int) =~= q);
        }
        assert(matches_query(rows.last(), q));
        let rest = search_spec(rows.drop_last(), q);
        assert(search_spec(rows, q) =~= seq![rows.last()] + rest);
        assert forall|k: int| 0 <= k < rows.len() implies search_spec(rows, q)[k] == rows[rows.len()
            - 1 - k] by {
            if k >= 1 {
                assert(rest[k - 1] == rows.drop_last()[rows.drop_last().len() - 1 - (k - 1)]);
            }
        }
    }
}

} // verus!
