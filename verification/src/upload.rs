//! The ingestion pipeline: validate, digest, dedup-check, place, index —
//! each step a hard gate, with a compensating delete when indexing fails
//! after placement. The caller reads the source file, performs the copy
//! and the durable insert, and reports each outcome.

use vstd::prelude::*;
use vstd::string::*;
use crate::catalog::Catalog;
use crate::errors::IngestError;
use crate::image::is_accepted_image_path;
use crate::paths::{path_extension_spec, file_name_spec, file_name_of, extension_of_name,
    is_accepted_image_ext};
use crate::record::ImageRecord;
use crate::store::{BlobStore, get_image_storage_path, storage_path_spec};
use crate::text::{str_concat, push_char};

verus! {

/// What the SHA-256 digest of these bytes is: a function of the bytes
/// alone, the same in every process and on every machine.
pub uninterp spec fn sha256_of(data: Seq<u8>) -> Seq<u8>;

/// Relies on sha2's SHA-256, whose output is thirty-two bytes and
/// depends on the input bytes alone.
#[verifier::external_body]
fn sha256_digest(data: &Vec<u8>) -> (r: Vec<u8>)
    ensures
        r@ == sha256_of(data@),
        r@.len() == 32,
{
    <sha2::Sha256 as sha2::Digest>::digest(data.as_slice()).to_vec()
}

/// The character that writes the hex digit `d`, lower case.
pub open spec fn hex_digit(d: int) -> char {
    if d == 0 {
        '0'
    } else if d == 1 {
        '1'
    } else if d == 2 {
        '2'
    } else if d == 3 {
        '3'
    } else if d == 4 {
        '4'
    } else if d == 5 {
        '5'
    } else if d == 6 {
        '6'
    } else if d == 7 {
        '7'
    } else if d == 8 {
        '8'
    } else if d == 9 {
        '9'
    } else if d == 10 {
        'a'
    } else if d == 11 {
        'b'
    } else if d == 12 {
        'c'
    } else if d == 13 {
        'd'
    } else if d == 14 {
        'e'
    } else {
        'f'
    }
}

/// The hex writing of bytes: two lower-case digits per byte, high
/// nibble first.
pub open spec fn hex_of(bytes: Seq<u8>) -> Seq<char>
    decreases bytes.len(),
{
    if bytes.len() == 0 {
        Seq::empty()
    } else {
        hex_of(bytes.drop_last()) + seq![
            hex_digit(bytes.last() as int / 16),
            hex_digit(bytes.last() as int % 16),
        ]
    }
}

/// Hex writing doubles the length.
pub proof fn lemma_hex_of_len(bytes: Seq<u8>)
    ensures
        hex_of(bytes).len() == 2 * bytes.len(),
    decreases bytes.len(),
{
    if bytes.len() > 0 {
        lemma_hex_of_len(bytes.drop_last());
    }
}

/// Relies on hex::encode: two lower-case hex digits for each byte, high
/// nibble first.
#[verifier::external_body]
fn hex_encode(data: &Vec<u8>) -> (r: String)
    ensures
        r@ == hex_of(data@),
{
    hex::encode(data)
}

/// The hex-written SHA-256 digest of the content: sixty-four characters.
pub fn calculate_file_hash(data: &Vec<u8>) -> (r: String)
    ensures
        r@ == hex_of(sha256_of(data@)),
        r@.len() == 64,
{
    let digest = sha256_digest(data);
    let r = hex_encode(&digest);
    proof {
        lemma_hex_of_len(digest@);
    }
    r
}

/// What ingestion reports to its caller.
#[derive(Debug, Clone, PartialEq, Eq)]
pub struct UploadResult {
    pub success: bool,
    pub deduplicated: bool,
    pub message: String,
    pub image_id: Option<i32>,
    pub file_size: Option<i64>,
}

/// Everything the placement and indexing steps need of a fresh source.
#[derive(Debug, Clone, PartialEq, Eq)]
pub struct IngestTicket {
    pub filename: String,
    pub extension: String,
    pub hash: String,
    pub size: i64,
    pub dest: String,
}

/// How reading the source file went.
#[derive(Debug)]
pub enum SourceRead {
    /// The file is absent.
    Missing,
    /// The file exists but reading it failed.
    Unreadable,
    /// The file's bytes.
    Content(Vec<u8>),
}

impl SourceRead {
    /// The bytes read, where reading succeeded.
    pub open spec fn content_of(&self) -> Seq<u8> {
        match *self {
            SourceRead::Content(d) => d@,
            _ => Seq::empty(),
        }
    }
}

/// The pipeline's decision on a validated source.
#[derive(Debug)]
pub enum IngestPlan {
    /// The content is already catalogued: done, nothing to place.
    Duplicate(UploadResult),
    /// Fresh content: place the blob at `dest`, then index it.
    Fresh(IngestTicket),
}

/// Validates the source and decides: refuse it, report a duplicate, or
/// hand back the ticket that placement and indexing follow. Reads the
/// catalog only; nothing is written or placed here.
pub fn prepare_ingest(
    cat: &Catalog,
    images_root: &String,
    source_path: &String,
    read: &SourceRead,
) -> (r: Result<IngestPlan, IngestError>)
    requires
        cat.wf(),
        read matches SourceRead::Content(d) ==> d@.len() <= 0x7fff_ffff_ffff_ffff,
    ensures
        read is Missing ==> r == Err::<IngestPlan, IngestError>(IngestError::SourceNotFound),
        !(read is Missing) && !is_accepted_image_path(source_path@) ==> r == Err::<
            IngestPlan,
            IngestError,
        >(IngestError::UnsupportedFormat),
        read is Unreadable && is_accepted_image_path(source_path@) ==> r == Err::<
            IngestPlan,
            IngestError,
        >(IngestError::HashFailure),
        read is Content && is_accepted_image_path(source_path@) && cat.spec_has_hash(
            hex_of(sha256_of(read.content_of())),
        ) ==> (r matches Ok(IngestPlan::Duplicate(u)) && u.success && u.deduplicated
            && u.image_id is None && u.file_size == Some(read.content_of().len() as i64)
            && u.message@ == "file '"@ + file_name_spec(source_path@)
            + "' already stored; upload skipped"@),
        read is Content && is_accepted_image_path(source_path@) && !cat.spec_has_hash(
            hex_of(sha256_of(read.content_of())),
        ) ==> (r matches Ok(IngestPlan::Fresh(t)) && t.filename@ == file_name_spec(source_path@)
            && (path_extension_spec(source_path@) matches Some(e) && t.extension@ == seq!['.'] + e)
            && t.hash@ == hex_of(sha256_of(read.content_of())) && t.size == read.content_of().len()
            as i64 && t.dest@ == storage_path_spec(images_root@, t.hash@, t.extension@)),
{
    let fname = file_name_of(source_path.as_str());
    let ext = extension_of_name(fname.as_str());
    match read {
        SourceRead::Missing => Err(IngestError::SourceNotFound),
        SourceRead::Unreadable => {
            match ext {
                Some(e) => {
                    if is_accepted_image_ext(e.as_str()) {
                        Err(IngestError::HashFailure)
                    } else {
                        Err(IngestError::UnsupportedFormat)
                    }
                },
                None => Err(IngestError::UnsupportedFormat),
            }
        },
        SourceRead::Content(d) => {
            let e = match ext {
                Some(e) => e,
                None => {
                    return Err(IngestError::UnsupportedFormat);
                },
            };
            if !is_accepted_image_ext(e.as_str()) {
                return Err(IngestError::UnsupportedFormat);
            }
            let size: i64 = d.len() as i64;
            let hash = calculate_file_hash(d);
            if cat.image_exists_by_hash(&hash) {
                let mut msg = str_concat("file '", fname.as_str());
                msg.append("' already stored; upload skipped");
                proof {
                    assert(msg@ =~= "file '"@ + file_name_spec(source_path@)
                        + "' already stored; upload skipped"@);
                }
                Ok(
                    IngestPlan::Duplicate(
                        UploadResult {
                            success: true,
                            deduplicated: true,
                            message: msg,
                            image_id: None,
                            file_size: Some(size),
                        },
                    ),
                )
            } else {
                let mut dotted = String::new();
                push_char(&mut dotted, '.');
                dotted.append(e.as_str());
                proof {
                    assert(dotted@ =~= seq!['.'] + e@);
                }
                let dest = get_image_storage_path(
                    images_root.as_str(),
                    hash.as_str(),
                    dotted.as_str(),
                );
                Ok(
                    IngestPlan::Fresh(
                        IngestTicket {
                            filename: fname,
                            extension: dotted,
                            hash: hash,
                            size: size,
                            dest: dest,
                        },
                    ),
                )
            }
        },
    }
}

/// Places and indexes a fresh source, the caller reporting how its own
/// steps went: `root_ok` for creating the store root, `copy_ok` for the
/// copy, `persist_ok` for the durable insert. Copy-then-index: when the
/// index refuses the row after the blob was placed, the blob is removed
/// again, so no orphan survives this path; a copy failure leaves the
/// store as it was, and the source is never touched.
pub fn commit_ingest(
    cat: &mut Catalog,
    store: &mut BlobStore,
    ticket: &IngestTicket,
    root_ok: bool,
    copy_ok: bool,
    persist_ok: bool,
    now: u64,
) -> (r: Result<UploadResult, IngestError>)
    requires
        old(cat).wf(),
        old(store).wf(),
    ensures
        final(cat).wf(),
        final(store).wf(),
        !root_ok ==> r == Err::<UploadResult, IngestError>(IngestError::StorageUnavailable)
            && *final(cat) == *old(cat) && *final(store) == *old(store),
        root_ok && !copy_ok ==> r == Err::<UploadResult, IngestError>(IngestError::CopyFailed)
            && *final(cat) == *old(cat) && *final(store) == *old(store),
        root_ok && copy_ok && !(persist_ok && !old(cat).spec_has_hash(ticket.hash@) && !old(cat).spec_has_path(ticket.dest@) && old(cat).spec_next_id() < i32::MAX) ==> (r == Err::<
            UploadResult,
            IngestError,
        >(IngestError::ConstraintViolation) && *final(cat) == *old(cat) && !final(store).spec_has(ticket.dest@) && (forall|q: Seq<char>|
            q != ticket.dest@ ==> final(store).spec_has(q) == old(store).spec_has(q))),
        root_ok && copy_ok && persist_ok && !old(cat).spec_has_hash(ticket.hash@) && !old(cat).spec_has_path(ticket.dest@) && old(cat).spec_next_id() < i32::MAX ==> (r matches Ok(u)
            && u.success && !u.deduplicated && u.image_id == Some(
            old(cat).spec_next_id() as i32,
        ) && u.file_size == Some(ticket.size) && u.message@ == "file '"@ + ticket.filename@
            + "' stored"@ && final(cat).spec_next_id() == old(cat).spec_next_id() + 1 && final(cat).rows() == old(cat).rows().push(
            (ImageRecord {
                id: old(cat).spec_next_id() as i32,
                filename: ticket.filename,
                path: ticket.dest,
                thumbnail_path: None,
                size: ticket.size,
                hash: ticket.hash,
                description: None,
                created_at: old(cat).next_stamp(now),
                updated_at: old(cat).next_stamp(now),
            }),
        ) && final(store).spec_has(ticket.dest@) && (forall|q: Seq<char>|
            q != ticket.dest@ ==> final(store).spec_has(q) == old(store).spec_has(q))),
{
    if !root_ok {
        return Err(IngestError::StorageUnavailable);
    }
    if !copy_ok {
        return Err(IngestError::CopyFailed);
    }
    store.place_blob(&ticket.dest);
    if !persist_ok {
        store.remove_blob(&ticket.dest);
        return Err(IngestError::ConstraintViolation);
    }
    match cat.insert_image(&ticket.filename, &ticket.dest, ticket.size, &ticket.hash, now) {
        Ok(id) => {
            let mut msg = str_concat("file '", ticket.filename.as_str());
            msg.append("' stored");
            proof {
                assert(msg@ =~= "file '"@ + ticket.filename@ + "' stored"@);
            }
            Ok(
                UploadResult {
                    success: true,
                    deduplicated: false,
                    message: msg,
                    image_id: Some(id),
                    file_size: Some(ticket.size),
                },
            )
        },
        Err(_) => {
            store.remove_blob(&ticket.dest);
            Err(IngestError::ConstraintViolation)
        },
    }
}

/// Uniqueness rides on the digest and the path, never the display name:
/// after one row is indexed, a second content whose digest and path are
/// fresh still has both gates open, whatever file name it shares with
/// the first.
pub proof fn lemma_filename_never_blocks_insert(
    cat: Catalog,
    cat2: Catalog,
    row: ImageRecord,
    h2: Seq<char>,
    p2: Seq<char>,
)
    requires
        !cat.spec_has_hash(h2),
        !cat.spec_has_path(p2),
        row.hash@ != h2,
        row.path@ != p2,
        cat2.rows() == cat.rows().push(row),
    ensures
        !cat2.spec_has_hash(h2),
        !cat2.spec_has_path(p2),
{
    if cat2.spec_has_hash(h2) {
        let w = choose|i: int|
            0 <= i < cat2.rows().len() && (#[trigger] cat2.rows()[i]).hash@ == h2;
        if w < cat.rows().len() {
            assert(cat.rows()[w].hash@ == h2);
        } else {
            assert(cat2.rows()[w] == row);
        }
    }
    if cat2.spec_has_path(p2) {
        let w = choose|i: int|
            0 <= i < cat2.rows().len() && (#[trigger] cat2.rows()[i]).path@ == p2;
        if w < cat.rows().len() {
            assert(cat.rows()[w].path@ == p2);
        } else {
            assert(cat2.rows()[w] == row);
        }
    }
}

} // verus!
