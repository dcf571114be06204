//! The catalog row and the trimmed view of it that callers receive.

use vstd::prelude::*;

verus! {

/// One catalog row. `hash` is the hex-written content digest, unique
/// among live rows; `path` is where the blob lives, also unique.
/// Timestamps count seconds.
#[derive(Debug, Clone, PartialEq, Eq)]
pub struct ImageRecord {
    pub id: i32,
    pub filename: String,
    pub path: String,
    pub thumbnail_path: Option<String>,
    pub size: i64,
    pub hash: String,
    pub description: Option<String>,
    pub created_at: u64,
    pub updated_at: u64,
}

/// Copies an optional text, keeping its value.
pub fn copy_opt_string(o: &Option<String>) -> (r: Option<String>)
    ensures
        r == *o,
{
    match o {
        Some(s) => Some(s.clone()),
        None => None,
    }
}

impl ImageRecord {
    /// An identical copy of the row.
    pub fn copy_rec(&self) -> (r: ImageRecord)
        ensures
            r == *self,
    {
        ImageRecord {
            id: self.id,
            filename: self.filename.clone(),
            path: self.path.clone(),
            thumbnail_path: copy_opt_string(&self.thumbnail_path),
            size: self.size,
            hash: self.hash.clone(),
            description: copy_opt_string(&self.description),
            created_at: self.created_at,
            updated_at: self.updated_at,
        }
    }
}

/// What a caller sees of a row: everything but the digest and the
/// update stamp.
#[derive(Debug, Clone, PartialEq, Eq)]
pub struct ImageInfo {
    pub id: i32,
    pub filename: String,
    pub path: String,
    pub size: i64,
    pub thumbnail_path: Option<String>,
    pub description: Option<String>,
    pub created_at: u64,
}

/// The view of a row a caller receives.
pub open spec fn info_of(record: ImageRecord) -> ImageInfo {
    ImageInfo {
        id: record.id,
        filename: record.filename,
        path: record.path,
        size: record.size,
        thumbnail_path: record.thumbnail_path,
        description: record.description,
        created_at: record.created_at,
    }
}

impl From<ImageRecord> for ImageInfo {
    fn from(record: ImageRecord) -> (r: ImageInfo) {
        ImageInfo {
            id: record.id,
            filename: record.filename,
            path: record.path,
            size: record.size,
            thumbnail_path: record.thumbnail_path,
            description: record.description,
            created_at: record.created_at,
        }
    }
}

impl vstd::std_specs::convert::FromSpecImpl<ImageRecord> for ImageInfo {
    open spec fn obeys_from_spec() -> bool {
        true
    }

    open spec fn from_spec(record: ImageRecord) -> ImageInfo {
        info_of(record)
    }
}

} // verus!
