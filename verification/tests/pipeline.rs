//! The ingestion pipeline end to end: dedup, gates, compensating
//! cleanup, and the placement rule.

use images_manage::catalog::Catalog;
use images_manage::commands::{delete_image, get_all_images, get_image_by_id};
use images_manage::errors::{CatalogError, IngestError};
use images_manage::store::{get_image_storage_path, BlobStore};
use images_manage::upload::{
    calculate_file_hash, commit_ingest, prepare_ingest, IngestPlan, SourceRead,
};

fn ingest_ok(
    cat: &mut Catalog,
    store: &mut BlobStore,
    root: &str,
    path: &str,
    bytes: Vec<u8>,
    now: u64,
) -> images_manage::upload::UploadResult {
    let plan = prepare_ingest(
        cat,
        &root.to_string(),
        &path.to_string(),
        &SourceRead::Content(bytes),
    )
    .expect("prepare");
    match plan {
        IngestPlan::Duplicate(u) => u,
        IngestPlan::Fresh(t) => commit_ingest(cat, store, &t, true, true, true, now).expect("commit"),
    }
}

#[test]
fn end_to_end_ingest_then_dedup() {
    let mut cat = Catalog::new();
    let mut store = BlobStore::new();
    let bytes: Vec<u8> = vec![65u8; 10];

    let first = ingest_ok(&mut cat, &mut store, "/r", "/src/a.png", bytes.clone(), 100);
    assert!(first.success);
    assert!(!first.deduplicated);
    assert_eq!(first.image_id, Some(1));
    assert_eq!(first.file_size, Some(10));

    let second = prepare_ingest(
        &cat,
        &"/r".to_string(),
        &"/elsewhere/copy.png".to_string(),
        &SourceRead::Content(bytes),
    )
    .expect("prepare");
    match second {
        IngestPlan::Duplicate(u) => {
            assert!(u.success);
            assert!(u.deduplicated);
            assert_eq!(u.image_id, None);
            assert_eq!(u.file_size, Some(10));
        }
        IngestPlan::Fresh(_) => panic!("identical bytes must deduplicate"),
    }

    let all = get_all_images(&cat);
    assert_eq!(all.len(), 1);
    assert_eq!(all[0].size, 10);
    assert_eq!(all[0].id, 1);
}

#[test]
fn distinct_content_same_filename_both_ingest() {
    let mut cat = Catalog::new();
    let mut store = BlobStore::new();
    let r1 = ingest_ok(&mut cat, &mut store, "/r", "/one/cat.png", vec![1, 2, 3], 10);
    let r2 = ingest_ok(&mut cat, &mut store, "/r", "/two/cat.png", vec![4, 5, 6], 20);
    assert_eq!(r1.image_id, Some(1));
    assert_eq!(r2.image_id, Some(2));
    assert!(!r1.deduplicated && !r2.deduplicated);
    assert_eq!(get_all_images(&cat).len(), 2);
}

#[test]
fn source_missing_is_refused() {
    let cat = Catalog::new();
    let r = prepare_ingest(
        &cat,
        &"/r".to_string(),
        &"/gone/a.png".to_string(),
        &SourceRead::Missing,
    );
    assert_eq!(r.unwrap_err(), IngestError::SourceNotFound);
}

#[test]
fn unsupported_extension_is_refused() {
    let cat = Catalog::new();
    for p in ["/s/a.txt", "/s/noext", "/s/.hidden", "/s/dir.d/"] {
        let r = prepare_ingest(
            &cat,
            &"/r".to_string(),
            &p.to_string(),
            &SourceRead::Content(vec![1]),
        );
        assert_eq!(r.unwrap_err(), IngestError::UnsupportedFormat, "{}", p);
    }
}

#[test]
fn unreadable_source_is_a_hash_failure() {
    let cat = Catalog::new();
    let r = prepare_ingest(
        &cat,
        &"/r".to_string(),
        &"/s/a.png".to_string(),
        &SourceRead::Unreadable,
    );
    assert_eq!(r.unwrap_err(), IngestError::HashFailure);
}

#[test]
fn copy_failure_leaves_everything_untouched() {
    let mut cat = Catalog::new();
    let mut store = BlobStore::new();
    let plan = prepare_ingest(
        &cat,
        &"/r".to_string(),
        &"/s/a.png".to_string(),
        &SourceRead::Content(vec![9]),
    )
    .expect("prepare");
    let t = match plan {
        IngestPlan::Fresh(t) => t,
        _ => panic!("fresh content expected"),
    };
    let r = commit_ingest(&mut cat, &mut store, &t, true, false, true, 5);
    assert_eq!(r.unwrap_err(), IngestError::CopyFailed);
    assert!(!store.has_blob(&t.dest));
    assert_eq!(cat.image_count(), 0);
}

#[test]
fn storage_root_failure_is_refused() {
    let mut cat = Catalog::new();
    let mut store = BlobStore::new();
    let plan = prepare_ingest(
        &cat,
        &"/r".to_string(),
        &"/s/a.png".to_string(),
        &SourceRead::Content(vec![9]),
    )
    .expect("prepare");
    let t = match plan {
        IngestPlan::Fresh(t) => t,
        _ => panic!("fresh content expected"),
    };
    let r = commit_ingest(&mut cat, &mut store, &t, false, true, true, 5);
    assert_eq!(r.unwrap_err(), IngestError::StorageUnavailable);
    assert!(!store.has_blob(&t.dest));
}

#[test]
fn insert_failure_removes_the_placed_blob() {
    let mut cat = Catalog::new();
    let mut store = BlobStore::new();
    let plan = prepare_ingest(
        &cat,
        &"/r".to_string(),
        &"/s/a.png".to_string(),
        &SourceRead::Content(vec![7, 7]),
    )
    .expect("prepare");
    let t = match plan {
        IngestPlan::Fresh(t) => t,
        _ => panic!("fresh content expected"),
    };
    // The durable insert fails after the copy succeeded: the blob at the
    // computed path must not survive.
    let r = commit_ingest(&mut cat, &mut store, &t, true, true, false, 5);
    assert_eq!(r.unwrap_err(), IngestError::ConstraintViolation);
    assert!(!store.has_blob(&t.dest));
    assert_eq!(cat.image_count(), 0);
}

#[test]
fn storage_path_is_deterministic_and_sharded() {
    let p1 = get_image_storage_path("/root", "abcdef", ".png");
    let p2 = get_image_storage_path("/root", "abcdef", ".png");
    assert_eq!(p1, p2);
    assert_eq!(p1, "/root/ab/abcdef.png");
    assert_eq!(get_image_storage_path("/root", "a", ".png"), "/root/a/a.png");
    assert_eq!(get_image_storage_path("", "xy", ""), "/xy/xy");
}

#[test]
fn sha256_hex_of_known_vectors() {
    let empty = calculate_file_hash(&vec![]);
    assert_eq!(
        empty,
        "e3b0c44298fc1c149afbf4c8996fb92427ae41e4649b934ca495991b7852b855"
    );
    let abc = calculate_file_hash(&b"abc".to_vec());
    assert_eq!(
        abc,
        "ba7816bf8f01cfea414140de5dae2223b00361a396177a9cb410ff61f20015ad"
    );
}

#[test]
fn ticket_carries_the_computed_destination() {
    let cat = Catalog::new();
    let plan = prepare_ingest(
        &cat,
        &"/r".to_string(),
        &"/s/photo.JPG".to_string(),
        &SourceRead::Content(b"abc".to_vec()),
    )
    .expect("prepare");
    let t = match plan {
        IngestPlan::Fresh(t) => t,
        _ => panic!("fresh content expected"),
    };
    assert_eq!(t.filename, "photo.JPG");
    assert_eq!(t.extension, ".JPG");
    assert_eq!(
        t.hash,
        "ba7816bf8f01cfea414140de5dae2223b00361a396177a9cb410ff61f20015ad"
    );
    assert_eq!(t.size, 3);
    assert_eq!(t.dest, format!("/r/ba/{}.JPG", t.hash));
}

#[test]
fn delete_removes_row_and_blob() {
    let mut cat = Catalog::new();
    let mut store = BlobStore::new();
    let r = ingest_ok(&mut cat, &mut store, "/r", "/s/a.png", vec![1, 2], 10);
    let id = r.image_id.unwrap();
    let path = delete_image(&mut cat, &mut store, id).expect("delete");
    assert!(!store.has_blob(&path));
    assert_eq!(cat.image_count(), 0);
    assert_eq!(
        get_image_by_id(&cat, id).unwrap_err(),
        CatalogError::NotFound
    );
    assert_eq!(
        delete_image(&mut cat, &mut store, id).unwrap_err(),
        CatalogError::NotFound
    );
}
