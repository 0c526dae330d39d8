use indexnow_updater::scan::{build_update_list, classify, Filehash, ScanClassification};
use indexnow_updater::store::{db_update, file_sha512_from_db, get_all_files, open};

fn fh(file: &str, hash: &str) -> Filehash {
    Filehash { file: file.to_string(), hash: hash.to_string() }
}

const H1: &str = "1111111111111111";
const H2: &str = "2222222222222222";

#[test]
fn empty_scan_of_empty_store_changes_nothing() {
    let mut db = open(":memory:").unwrap();
    let changed = build_update_list(&mut db, Vec::new(), false).unwrap();
    assert_eq!(changed, Vec::<String>::new());
    assert_eq!(get_all_files(&db).unwrap(), Vec::<String>::new());
}

#[test]
fn new_file_is_inserted_and_reported() {
    let mut db = open(":memory:").unwrap();
    let changed = build_update_list(&mut db, vec![fh("a.html", H1)], false).unwrap();
    assert_eq!(changed, vec!["a.html".to_string()]);
    assert_eq!(file_sha512_from_db(&db, "a.html").unwrap(), Some(H1.to_string()));
}

#[test]
fn modified_file_is_updated_and_reported() {
    let mut db = open(":memory:").unwrap();
    db_update(&mut db, vec![fh("a.html", H1)], Vec::new(), Vec::new()).unwrap();
    let changed = build_update_list(&mut db, vec![fh("a.html", H2)], false).unwrap();
    assert_eq!(changed, vec!["a.html".to_string()]);
    assert_eq!(file_sha512_from_db(&db, "a.html").unwrap(), Some(H2.to_string()));
}

#[test]
fn unchanged_file_is_not_reported() {
    let mut db = open(":memory:").unwrap();
    db_update(&mut db, vec![fh("a.html", H1)], Vec::new(), Vec::new()).unwrap();
    let changed = build_update_list(&mut db, vec![fh("a.html", H1)], false).unwrap();
    assert_eq!(changed, Vec::<String>::new());
    assert_eq!(file_sha512_from_db(&db, "a.html").unwrap(), Some(H1.to_string()));
}

#[test]
fn mixed_scan_reports_only_new_and_modified() {
    let mut db = open(":memory:").unwrap();
    db_update(
        &mut db,
        vec![fh("same.html", H1), fh("edited.html", H1)],
        Vec::new(),
        Vec::new(),
    )
    .unwrap();
    let entries = vec![fh("same.html", H1), fh("edited.html", H2), fh("fresh.html", H2)];
    let changed = build_update_list(&mut db, entries, false).unwrap();
    assert_eq!(changed, vec!["edited.html".to_string(), "fresh.html".to_string()]);
    assert_eq!(file_sha512_from_db(&db, "same.html").unwrap(), Some(H1.to_string()));
    assert_eq!(file_sha512_from_db(&db, "edited.html").unwrap(), Some(H2.to_string()));
    assert_eq!(file_sha512_from_db(&db, "fresh.html").unwrap(), Some(H2.to_string()));
}

#[test]
fn purge_removes_stale_entry_without_reporting_it() {
    let mut db = open(":memory:").unwrap();
    db_update(&mut db, vec![fh("old.html", H1)], Vec::new(), Vec::new()).unwrap();
    let changed = build_update_list(&mut db, Vec::new(), true).unwrap();
    assert_eq!(changed, Vec::<String>::new());
    assert_eq!(get_all_files(&db).unwrap(), Vec::<String>::new());
}

#[test]
fn purge_keeps_observed_files() {
    let mut db = open(":memory:").unwrap();
    db_update(
        &mut db,
        vec![fh("keep.html", H1), fh("drop.html", H1)],
        Vec::new(),
        Vec::new(),
    )
    .unwrap();
    let changed = build_update_list(&mut db, vec![fh("keep.html", H1)], true).unwrap();
    assert_eq!(changed, Vec::<String>::new());
    let mut all = get_all_files(&db).unwrap();
    all.sort();
    assert_eq!(all, vec!["keep.html".to_string()]);
}

#[test]
fn without_purge_stale_entries_stay() {
    let mut db = open(":memory:").unwrap();
    db_update(&mut db, vec![fh("old.html", H1)], Vec::new(), Vec::new()).unwrap();
    let changed = build_update_list(&mut db, Vec::new(), false).unwrap();
    assert_eq!(changed, Vec::<String>::new());
    assert_eq!(get_all_files(&db).unwrap(), vec!["old.html".to_string()]);
}

#[test]
fn rescan_of_unchanged_tree_is_idempotent() {
    let mut db = open(":memory:").unwrap();
    let entries = vec![fh("a.html", H1), fh("b.html", H2)];
    let first = build_update_list(&mut db, entries, true).unwrap();
    assert_eq!(first.len(), 2);
    let entries_again = vec![fh("a.html", H1), fh("b.html", H2)];
    let second = build_update_list(&mut db, entries_again, true).unwrap();
    assert_eq!(second, Vec::<String>::new());
    let mut all = get_all_files(&db).unwrap();
    all.sort();
    assert_eq!(all, vec!["a.html".to_string(), "b.html".to_string()]);
}

#[test]
fn failing_mutation_batch_leaves_store_untouched() {
    let mut db = open(":memory:").unwrap();
    db_update(&mut db, vec![fh("a.html", H1)], Vec::new(), Vec::new()).unwrap();
    // Two inserts of the same primary key: the second statement fails, so
    // the whole batch must roll back, including the first insert and the
    // delete.
    let r = db_update(
        &mut db,
        vec![fh("b.html", H1), fh("b.html", H2)],
        Vec::new(),
        vec!["a.html".to_string()],
    );
    assert!(r.is_err());
    assert_eq!(get_all_files(&db).unwrap(), vec!["a.html".to_string()]);
    assert_eq!(file_sha512_from_db(&db, "a.html").unwrap(), Some(H1.to_string()));
    assert_eq!(file_sha512_from_db(&db, "b.html").unwrap(), None);
}

#[test]
fn insert_of_existing_path_fails_and_rolls_back() {
    let mut db = open(":memory:").unwrap();
    db_update(&mut db, vec![fh("a.html", H1)], Vec::new(), Vec::new()).unwrap();
    let r = db_update(&mut db, vec![fh("a.html", H2)], Vec::new(), Vec::new());
    assert!(r.is_err());
    assert_eq!(file_sha512_from_db(&db, "a.html").unwrap(), Some(H1.to_string()));
}

#[test]
fn update_of_missing_path_changes_nothing() {
    let mut db = open(":memory:").unwrap();
    db_update(&mut db, Vec::new(), vec![fh("ghost.html", H1)], Vec::new()).unwrap();
    assert_eq!(get_all_files(&db).unwrap(), Vec::<String>::new());
}

#[test]
fn classify_covers_all_three_cases() {
    let stored_none: Option<String> = None;
    let stored_same: Option<String> = Some(H1.to_string());
    assert_eq!(classify(&stored_none, &H1.to_string()), ScanClassification::New);
    assert_eq!(classify(&stored_same, &H2.to_string()), ScanClassification::Modified);
    assert_eq!(classify(&stored_same, &H1.to_string()), ScanClassification::Unchanged);
}
