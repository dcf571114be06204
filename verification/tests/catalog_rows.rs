//! The catalog's contracts: uniqueness, ordering, search, lookup,
//! updates, and the rename transaction.

use images_manage::catalog::Catalog;
use images_manage::commands::{get_all_images, search_images};
use images_manage::errors::{CatalogError, RenameError};
use images_manage::rename::{apply_rename, plan_rename};
use images_manage::store::BlobStore;

fn seeded() -> Catalog {
    let mut cat = Catalog::new();
    cat.insert_image(
        &"cat.png".to_string(),
        &"/r/aa/h1.png".to_string(),
        11,
        &"h1".to_string(),
        100,
    )
    .expect("insert");
    cat.insert_image(
        &"dog.jpg".to_string(),
        &"/r/bb/h2.jpg".to_string(),
        22,
        &"h2".to_string(),
        200,
    )
    .expect("insert");
    cat
}

#[test]
fn insert_assigns_increasing_ids() {
    let cat = seeded();
    let all = get_all_images(&cat);
    assert_eq!(all.len(), 2);
    assert_eq!(all[0].id, 2);
    assert_eq!(all[1].id, 1);
}

#[test]
fn duplicate_hash_is_refused() {
    let mut cat = seeded();
    let r = cat.insert_image(
        &"other.png".to_string(),
        &"/r/cc/h3.png".to_string(),
        5,
        &"h1".to_string(),
        300,
    );
    assert_eq!(r.unwrap_err(), CatalogError::DuplicateHash);
    assert_eq!(cat.image_count(), 2);
}

#[test]
fn duplicate_path_is_refused() {
    let mut cat = seeded();
    let r = cat.insert_image(
        &"other.png".to_string(),
        &"/r/aa/h1.png".to_string(),
        5,
        &"h3".to_string(),
        300,
    );
    assert_eq!(r.unwrap_err(), CatalogError::DuplicatePath);
    assert_eq!(cat.image_count(), 2);
}

#[test]
fn listing_is_newest_first_even_on_clock_skew() {
    let mut cat = seeded();
    // The clock runs backwards; creation order still wins.
    cat.insert_image(
        &"late.png".to_string(),
        &"/r/dd/h4.png".to_string(),
        1,
        &"h4".to_string(),
        50,
    )
    .expect("insert");
    let all = get_all_images(&cat);
    assert_eq!(all.len(), 3);
    assert_eq!(all[0].filename, "late.png");
    assert!(all[0].created_at >= all[1].created_at);
}

#[test]
fn search_empty_equals_list_all() {
    let cat = seeded();
    let listed = get_all_images(&cat);
    assert_eq!(search_images(&cat, &"".to_string()), listed);
    assert_eq!(search_images(&cat, &"   \t".to_string()), listed);
}

#[test]
fn search_matches_filename_or_description() {
    let mut cat = seeded();
    cat.update_description(1, &Some("a fluffy cat".to_string()), 150)
        .expect("update");
    let by_name = search_images(&cat, &"dog".to_string());
    assert_eq!(by_name.len(), 1);
    assert_eq!(by_name[0].filename, "dog.jpg");
    let by_desc = search_images(&cat, &"fluffy".to_string());
    assert_eq!(by_desc.len(), 1);
    assert_eq!(by_desc[0].id, 1);
    assert!(search_images(&cat, &"zzz".to_string()).is_empty());
    // Newest first when both match.
    let both = search_images(&cat, &".".to_string());
    assert_eq!(both.len(), 2);
    assert_eq!(both[0].id, 2);
}

#[test]
fn lookup_miss_is_not_found() {
    let cat = seeded();
    assert_eq!(
        cat.get_image_by_id(99).unwrap_err(),
        CatalogError::NotFound
    );
    let rec = cat.get_image_by_id(1).expect("row 1");
    assert_eq!(rec.filename, "cat.png");
    assert_eq!(rec.hash, "h1");
}

#[test]
fn rename_preserves_extension() {
    let mut cat = seeded();
    let mut store = BlobStore::new();
    store.place_blob(&"/r/aa/h1.png".to_string());
    let plan = plan_rename(&cat, 1, &Some("dog.jpg".to_string()), &None).expect("plan");
    let c = plan.filename_change.clone().expect("filename half");
    assert_eq!(c.final_filename, "dog.png");
    assert_eq!(c.new_path, "/r/aa/dog.png");
    apply_rename(&mut cat, &mut store, &plan, 500).expect("apply");
    let rec = cat.get_image_by_id(1).expect("row 1");
    assert_eq!(rec.filename, "dog.png");
    assert_eq!(rec.path, "/r/aa/dog.png");
    assert_eq!(rec.updated_at, 500);
    assert!(store.has_blob(&"/r/aa/dog.png".to_string()));
    assert!(!store.has_blob(&"/r/aa/h1.png".to_string()));
}

#[test]
fn rename_without_dot_trims_and_appends_extension() {
    let mut cat = seeded();
    let mut store = BlobStore::new();
    let plan = plan_rename(&cat, 2, &Some("  holiday  ".to_string()), &None).expect("plan");
    let c = plan.filename_change.clone().expect("filename half");
    assert_eq!(c.final_filename, "holiday.jpg");
    apply_rename(&mut cat, &mut store, &plan, 501).expect("apply");
    assert_eq!(cat.get_image_by_id(2).unwrap().filename, "holiday.jpg");
}

#[test]
fn rename_conflict_leaves_both_rows_untouched() {
    let mut cat = seeded();
    let mut store = BlobStore::new();
    store.place_blob(&"/r/aa/h1.png".to_string());
    store.place_blob(&"/r/bb/h2.jpg".to_string());
    // Row 1 would take row 2's display name (extension preserved makes
    // "dog.jpg" collide only on a jpg row, so aim at row 2 from row 1's
    // side with a name whose final form is "cat.png").
    cat.update_filename_and_path(2, &"cat.png".to_string(), &"/r/bb/cat.png".to_string(), 300)
        .expect("set up collision target");
    let r = plan_rename(&cat, 1, &Some("cat.gif".to_string()), &None);
    assert_eq!(r.unwrap_err(), RenameError::NameConflict);
    let one = cat.get_image_by_id(1).unwrap();
    let two = cat.get_image_by_id(2).unwrap();
    assert_eq!(one.filename, "cat.png");
    assert_eq!(one.path, "/r/aa/h1.png");
    assert_eq!(two.filename, "cat.png");
    assert!(store.has_blob(&"/r/aa/h1.png".to_string()));
    assert!(store.has_blob(&"/r/bb/h2.jpg".to_string()));
}

#[test]
fn rename_blank_name_is_invalid() {
    let cat = seeded();
    let r = plan_rename(&cat, 1, &Some("   ".to_string()), &None);
    assert_eq!(r.unwrap_err(), RenameError::InvalidFilename);
}

#[test]
fn rename_missing_row_is_not_found() {
    let cat = Catalog::new();
    let r = plan_rename(&cat, 7, &Some("a.png".to_string()), &None);
    assert_eq!(r.unwrap_err(), RenameError::NotFound);
}

#[test]
fn description_is_trimmed_and_blank_clears_it() {
    let mut cat = seeded();
    let mut store = BlobStore::new();
    let plan = plan_rename(&cat, 1, &None, &Some("  sunny day  ".to_string())).expect("plan");
    apply_rename(&mut cat, &mut store, &plan, 600).expect("apply");
    let rec = cat.get_image_by_id(1).unwrap();
    assert_eq!(rec.description, Some("sunny day".to_string()));
    assert_eq!(rec.filename, "cat.png");

    let clear = plan_rename(&cat, 1, &None, &Some("   ".to_string())).expect("plan");
    apply_rename(&mut cat, &mut store, &clear, 601).expect("apply");
    assert_eq!(cat.get_image_by_id(1).unwrap().description, None);
}

#[test]
fn rename_applies_both_halves_together() {
    let mut cat = seeded();
    let mut store = BlobStore::new();
    let plan = plan_rename(
        &cat,
        1,
        &Some("spring".to_string()),
        &Some("trip".to_string()),
    )
    .expect("plan");
    apply_rename(&mut cat, &mut store, &plan, 700).expect("apply");
    let rec = cat.get_image_by_id(1).unwrap();
    assert_eq!(rec.filename, "spring.png");
    assert_eq!(rec.description, Some("trip".to_string()));
    assert_eq!(rec.updated_at, 700);
}

#[test]
fn restore_replays_rows_under_their_original_ids() {
    let mut cat = Catalog::new();
    cat.restore_image(
        3,
        &"a.png".to_string(),
        &"/r/aa/a.png".to_string(),
        &None,
        1,
        &"ha".to_string(),
        &Some("first".to_string()),
        10,
        11,
    )
    .expect("restore 3");
    cat.restore_image(
        7,
        &"b.png".to_string(),
        &"/r/bb/b.png".to_string(),
        &None,
        2,
        &"hb".to_string(),
        &None,
        20,
        21,
    )
    .expect("restore 7");
    // Ids below the next are refused: rows must arrive in id order.
    let out_of_order = cat.restore_image(
        5,
        &"c.png".to_string(),
        &"/r/cc/c.png".to_string(),
        &None,
        3,
        &"hc".to_string(),
        &None,
        30,
        31,
    );
    assert_eq!(out_of_order.unwrap_err(), CatalogError::ConstraintViolation);
    let all = get_all_images(&cat);
    assert_eq!(all.len(), 2);
    assert_eq!(all[0].id, 7);
    assert_eq!(all[1].id, 3);
    assert_eq!(all[1].description, Some("first".to_string()));
    // The next fresh insert continues after the restored ids.
    let id = cat
        .insert_image(
            &"d.png".to_string(),
            &"/r/dd/d.png".to_string(),
            4,
            &"hd".to_string(),
            40,
        )
        .expect("insert");
    assert_eq!(id, 8);
}
