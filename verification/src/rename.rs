//! The rename transaction: validate everything first — the row, the
//! name, the collision — then apply the file-name and description halves
//! as one unit, so a caller observes all or nothing. The original
//! extension is preserved whatever name the caller supplies.

use vstd::prelude::*;
use vstd::string::*;
use crate::catalog::Catalog;
use crate::errors::RenameError;
use crate::paths::{path_extension_spec, dir_prefix_spec, extension_of_path, with_file_name};
use crate::record::{ImageRecord, copy_opt_string};
use crate::store::BlobStore;
use crate::text::{
    all_space,
    trim_spec,
    last_ix_of,
    lemma_last_ix_of,
    is_blank,
    trim_str,
    find_last,
    push_char,
};

verus! {

/// The extension a renamed file keeps: the one its current path shows,
/// or `jpg` when the path shows none.
pub open spec fn rename_ext_spec(old_path: Seq<char>) -> Seq<char> {
    match path_extension_spec(old_path) {
        Option::Some(e) => e,
        Option::None => "jpg"@,
    }
}

/// The final file name: the caller's stem — what precedes the last dot,
/// or the whole trimmed name when it has no dot — with the original
/// extension appended.
pub open spec fn final_name_spec(new_name: Seq<char>, ext: Seq<char>) -> Seq<char> {
    let stem = if last_ix_of(new_name, '.') >= 0 {
        new_name.subrange(0, last_ix_of(new_name, '.'))
    } else {
        trim_spec(new_name)
    };
    stem + seq!['.'] + ext
}

/// The file-name half of a validated rename.
#[derive(Debug, Clone, PartialEq, Eq)]
pub struct FilenameChange {
    pub final_filename: String,
    pub old_path: String,
    pub new_path: String,
}

/// A validated rename, ready to apply. Either half may be absent.
#[derive(Debug, Clone, PartialEq, Eq)]
pub struct RenamePlan {
    pub id: i32,
    pub filename_change: Option<FilenameChange>,
    pub description_change: Option<Option<String>>,
}

/// The row `plan` turns `row` into: the name and path move together,
/// the description is replaced by its normalized form, and a touched
/// row takes `now` as its update stamp.
pub open spec fn renamed_row_spec(row: ImageRecord, plan: RenamePlan, now: u64) -> ImageRecord {
    let row1 = match plan.filename_change {
        Option::Some(c) => ImageRecord {
            filename: c.final_filename,
            path: c.new_path,
            updated_at: now,
            ..row
        },
        Option::None => row,
    };
    match plan.description_change {
        Option::Some(norm) => ImageRecord { description: norm, updated_at: now, ..row1 },
        Option::None => row1,
    }
}

/// Validates a rename without touching anything: the row must be live,
/// a supplied name must not be blank, and the computed final name must
/// not be shown by any other live row.
pub fn plan_rename(
    cat: &Catalog,
    id: i32,
    new_filename: &Option<String>,
    new_description: &Option<String>,
) -> (r: Result<RenamePlan, RenameError>)
    requires
        cat.wf(),
    ensures
        !cat.spec_has_id(id as int) ==> r == Err::<RenamePlan, RenameError>(RenameError::NotFound),
        cat.spec_has_id(id as int) && (new_filename matches Some(f) && all_space(f@)) ==> r
            == Err::<RenamePlan, RenameError>(RenameError::InvalidFilename),
        cat.spec_has_id(id as int) && (new_filename matches Some(f) && !all_space(f@)
            && cat.spec_name_taken_by_other(
            final_name_spec(f@, rename_ext_spec(cat.row_of_id(id as int).path@)),
            id as int,
        )) ==> r == Err::<RenamePlan, RenameError>(RenameError::NameConflict),
        cat.spec_has_id(id as int) && (match *new_filename {
            Some(f) => !all_space(f@) && !cat.spec_name_taken_by_other(
                final_name_spec(f@, rename_ext_spec(cat.row_of_id(id as int).path@)),
                id as int,
            ),
            None => true,
        }) ==> (r matches Ok(plan) && plan.id == id && (match *new_filename {
            Some(f) => plan.filename_change matches Some(c) && c.final_filename@
                == final_name_spec(f@, rename_ext_spec(cat.row_of_id(id as int).path@))
                && c.old_path@ == cat.row_of_id(id as int).path@ && c.new_path@ == dir_prefix_spec(
                cat.row_of_id(id as int).path@,
            ) + c.final_filename@,
            None => plan.filename_change is None,
        }) && (match *new_description {
            Some(dsc) => plan.description_change matches Some(norm) && (if all_space(dsc@) {
                norm is None
            } else {
                norm matches Some(t) && t@ == trim_spec(dsc@)
            }),
            None => plan.description_change is None,
        })),
{
    let rec = match cat.get_image_by_id(id) {
        Ok(rec) => rec,
        Err(_) => {
            return Err(RenameError::NotFound);
        },
    };
    let filename_change = match new_filename {
        Some(f) => {
            if is_blank(f.as_str()) {
                return Err(RenameError::InvalidFilename);
            }
            let ext = match extension_of_path(rec.path.as_str()) {
                Some(e) => e,
                None => String::from_str("jpg"),
            };
            proof {
                lemma_last_ix_of(f@, '.');
            }
            let stem = match find_last(f.as_str(), '.') {
                Some(d) => f.as_str().substring_char(0, d).to_owned(),
                None => trim_str(f.as_str()),
            };
            let mut final_name = stem;
            push_char(&mut final_name, '.');
            final_name.append(ext.as_str());
            proof {
                assert(final_name@ =~= final_name_spec(f@, rename_ext_spec(rec.path@)));
            }
            if cat.filename_taken_by_other(&final_name, id) {
                return Err(RenameError::NameConflict);
            }
            let new_path = with_file_name(rec.path.as_str(), final_name.as_str());
            Some(
                FilenameChange {
                    final_filename: final_name,
                    old_path: rec.path,
                    new_path: new_path,
                },
            )
        },
        None => None,
    };
    let description_change = match new_description {
        Some(dsc) => {
            if is_blank(dsc.as_str()) {
                Some(None)
            } else {
                Some(Some(trim_str(dsc.as_str())))
            }
        },
        None => None,
    };
    Ok(RenamePlan { id: id, filename_change: filename_change, description_change: description_change })
}

/// Applies a validated rename: the catalog row changes as one unit, and
/// the blob moves with it when the store holds one at the old path. A
/// refusal — the row gone, or the new path already live elsewhere —
/// leaves the catalog and the store exactly as they were.
pub fn apply_rename(cat: &mut Catalog, store: &mut BlobStore, plan: &RenamePlan, now: u64) -> (r:
    Result<(), RenameError>)
    requires
        old(cat).wf(),
        old(store).wf(),
    ensures
        final(cat).wf(),
        final(store).wf(),
        !old(cat).spec_has_id(plan.id as int) ==> r == Err::<(), RenameError>(RenameError::NotFound)
            && *final(cat) == *old(cat) && *final(store) == *old(store),
        old(cat).spec_has_id(plan.id as int) && (plan.filename_change matches Some(c) && (exists|
            i: int,
        |
            0 <= i < old(cat).rows().len() && (#[trigger] old(cat).rows()[i]).path@ == c.new_path@
                && old(cat).rows()[i].id != plan.id)) ==> r == Err::<(), RenameError>(
            RenameError::DuplicatePath,
        ) && *final(cat) == *old(cat) && *final(store) == *old(store),
        old(cat).spec_has_id(plan.id as int) && (match plan.filename_change {
            Some(c) => !(exists|i: int|
                0 <= i < old(cat).rows().len() && (#[trigger] old(cat).rows()[i]).path@
                    == c.new_path@ && old(cat).rows()[i].id != plan.id),
            None => true,
        }) ==> (r == Ok::<(), RenameError>(()) && final(cat).rows() == old(cat).rows().update(
            old(cat).ix_of_id(plan.id as int),
            renamed_row_spec(old(cat).row_of_id(plan.id as int), *plan, now),
        ) && final(cat).spec_next_id() == old(cat).spec_next_id()),
        r == Ok::<(), RenameError>(()) ==> (match plan.filename_change {
            Some(c) => {
                if old(store).spec_has(c.old_path@) {
                    &&& final(store).spec_has(c.new_path@)
                    &&& c.old_path@ != c.new_path@ ==> !final(store).spec_has(c.old_path@)
                    &&& forall|q: Seq<char>|
                        q != c.old_path@ && q != c.new_path@ ==> final(store).spec_has(q) == old(
                            store,
                        ).spec_has(q)
                } else {
                    *final(store) == *old(store)
                }
            },
            None => *final(store) == *old(store),
        }),
{
    let ghost pre_rows = cat.rows();
    let ghost ix = old(cat).ix_of_id(plan.id as int);
    match cat.get_image_by_id(plan.id) {
        Ok(_) => {},
        Err(_) => {
            return Err(RenameError::NotFound);
        },
    }
    match &plan.filename_change {
        Some(c) => {
            match cat.update_filename_and_path(plan.id, &c.final_filename, &c.new_path, now) {
                Ok(()) => {},
                Err(crate::errors::CatalogError::NotFound) => {
                    return Err(RenameError::NotFound);
                },
                Err(_) => {
                    return Err(RenameError::DuplicatePath);
                },
            }
        },
        None => {},
    }
    proof {
        if old(cat).spec_has_id(plan.id as int) {
            let row1 = cat.rows()[ix];
            assert(row1.id == plan.id);
            cat.lemma_ix_of_id(plan.id as int, ix);
        }
    }
    match &plan.description_change {
        Some(norm) => {
            let normed = copy_opt_string(norm);
            match cat.update_description(plan.id, &normed, now) {
                Ok(()) => {},
                Err(_) => {
                    return Err(RenameError::NotFound);
                },
            }
        },
        None => {},
    }
    proof {
        if old(cat).spec_has_id(plan.id as int) {
            assert(cat.rows() =~= pre_rows.update(
                ix,
                renamed_row_spec(old(cat).row_of_id(plan.id as int), *plan, now),
            ));
        }
    }
    match &plan.filename_change {
        Some(c) => {
            if store.has_blob(&c.old_path) {
                store.remove_blob(&c.old_path);
                store.place_blob(&c.new_path);
            }
        },
        None => {},
    }
    Ok(())
}

/// Rename preserves the extension: however the caller's new name ends,
/// the final name's extension is exactly the row's original one —
/// provided the stem is not empty and the original extension holds no
/// dot, as a hex-named store path guarantees.
pub proof fn lemma_rename_preserves_extension(new_name: Seq<char>, ext: Seq<char>)
    requires
        last_ix_of(new_name, '.') >= 0 ==> last_ix_of(new_name, '.') > 0,
        last_ix_of(new_name, '.') < 0 ==> trim_spec(new_name).len() > 0,
        forall|i: int| 0 <= i < ext.len() ==> ext[i] != '.',
    ensures
        crate::paths::extension_spec(final_name_spec(new_name, ext)) == Some(ext),
{
    let stem = if last_ix_of(new_name, '.') >= 0 {
        new_name.subrange(0, last_ix_of(new_name, '.'))
    } else {
        trim_spec(new_name)
    };
    lemma_last_ix_of(new_name, '.');
    let head = stem + seq!['.'];
    let fin = final_name_spec(new_name, ext);
    assert(fin =~= head + ext);
    crate::text::lemma_last_ix_of_append_free(head, ext, '.');
    assert(head.last() == '.');
    assert(last_ix_of(head, '.') == stem.len());
    assert(last_ix_of(fin, '.') == stem.len());
    assert(stem.len() > 0);
    assert(fin.subrange(stem.len() as int + 1, fin.len() as int) =~= ext);
}

} // verus!
