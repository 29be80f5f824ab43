use fpm::error::Error;
use fpm::file_map::FileMap;
use fpm::store::{Change, SnapshotStore};

fn changes(list: Vec<(&str, Change)>) -> FileMap<Change> {
    let mut m = FileMap::new();
    for (name, c) in list {
        m.insert(name.to_string(), c);
    }
    m
}

#[test]
fn a_new_store_is_empty() {
    let store = SnapshotStore::new();
    assert!(store.latest_snapshots().is_empty());
    assert!(store.highest_known("a").is_none());
}

#[test]
fn reading_what_was_never_archived_is_not_found() {
    let store = SnapshotStore::new();
    match store.read_at("a.txt", 5) {
        Err(Error::NotFound { path, version }) => {
            assert_eq!(path, "a.txt");
            assert_eq!(version, Some(5));
        }
        other => panic!("unexpected {:?}", other),
    }
}

#[test]
fn the_archive_is_never_overwritten() {
    let mut store = SnapshotStore::new();
    assert!(store.archive_blob("a.txt".to_string(), 5, b"one".to_vec()));
    assert!(!store.archive_blob("a.txt".to_string(), 5, b"two".to_vec()));
    assert_eq!(store.read_at("a.txt", 5).unwrap().as_slice(), b"one".as_slice());
    assert!(store.archive_blob("a.txt".to_string(), 6, b"two".to_vec()));
    assert!(store.archive_blob("b.txt".to_string(), 5, b"three".to_vec()));
    assert_eq!(store.read_at("a.txt", 5).unwrap().as_slice(), b"one".as_slice());
    assert_eq!(store.read_at("a.txt", 6).unwrap().as_slice(), b"two".as_slice());
    assert_eq!(store.read_at("b.txt", 5).unwrap().as_slice(), b"three".as_slice());
    assert!(store.read_at("b.txt", 6).is_err());
}

#[test]
fn a_commit_at_a_later_time_takes_that_time() {
    let mut store = SnapshotStore::new();
    let v = store.commit(&changes(vec![("a", Some(b"1".to_vec())), ("b", Some(b"2".to_vec()))]), 100).unwrap();
    assert_eq!(v, 100);
    assert_eq!(store.latest_snapshots().get("a"), Some(&100));
    assert_eq!(store.latest_snapshots().get("b"), Some(&100));
    assert_eq!(store.read_at("a", 100).unwrap().as_slice(), b"1".as_slice());
    assert_eq!(store.read_at("b", 100).unwrap().as_slice(), b"2".as_slice());
}

#[test]
fn versions_of_a_file_rise_strictly() {
    let mut store = SnapshotStore::new();
    let v1 = store.commit(&changes(vec![("a", Some(b"1".to_vec()))]), 100).unwrap();
    let v2 = store.commit(&changes(vec![("a", Some(b"2".to_vec()))]), 100).unwrap();
    let v3 = store.commit(&changes(vec![("a", Some(b"3".to_vec()))]), 50).unwrap();
    let v4 = store.commit(&changes(vec![("a", Some(b"4".to_vec()))]), 500).unwrap();
    assert_eq!((v1, v2, v3, v4), (100, 101, 102, 500));
    assert_eq!(store.latest_snapshots().get("a"), Some(&500));
    assert_eq!(store.read_at("a", 100).unwrap().as_slice(), b"1".as_slice());
    assert_eq!(store.read_at("a", 101).unwrap().as_slice(), b"2".as_slice());
    assert_eq!(store.read_at("a", 102).unwrap().as_slice(), b"3".as_slice());
    assert_eq!(store.read_at("a", 500).unwrap().as_slice(), b"4".as_slice());
}

#[test]
fn a_commit_leaves_other_files_where_they_were() {
    let mut store = SnapshotStore::new();
    store.commit(&changes(vec![("a", Some(b"1".to_vec())), ("b", Some(b"1".to_vec()))]), 10).unwrap();
    let v = store.commit(&changes(vec![("b", Some(b"2".to_vec()))]), 5).unwrap();
    assert_eq!(v, 11);
    assert_eq!(store.latest_snapshots().get("a"), Some(&10));
    assert_eq!(store.latest_snapshots().get("b"), Some(&11));
}

#[test]
fn files_of_one_commit_share_the_version() {
    let mut store = SnapshotStore::new();
    store.commit(&changes(vec![("a", Some(b"1".to_vec()))]), 10).unwrap();
    store.commit(&changes(vec![("b", Some(b"1".to_vec()))]), 20).unwrap();
    let v = store.commit(&changes(vec![("a", Some(b"2".to_vec())), ("b", Some(b"2".to_vec())), ("c", Some(b"2".to_vec()))]), 15).unwrap();
    assert_eq!(v, 21);
    for name in ["a", "b", "c"] {
        assert_eq!(store.latest_snapshots().get(name), Some(&21));
    }
}

#[test]
fn a_deleted_file_leaves_the_latest_snapshots() {
    let mut store = SnapshotStore::new();
    store.commit(&changes(vec![("a", Some(b"1".to_vec())), ("b", Some(b"1".to_vec()))]), 10).unwrap();
    let v = store.commit(&changes(vec![("a", None)]), 20).unwrap();
    assert_eq!(v, 20);
    assert!(store.latest_snapshots().get("a").is_none());
    assert_eq!(store.latest_snapshots().get("b"), Some(&10));
    assert_eq!(store.read_at("a", 10).unwrap().as_slice(), b"1".as_slice());
    assert!(store.read_at("a", 20).is_err());
    let v = store.commit(&changes(vec![("a", Some(b"again".to_vec()))]), 5).unwrap();
    assert_eq!(v, 11);
}

#[test]
fn the_archive_counts_for_the_next_version() {
    let mut store = SnapshotStore::new();
    store.archive_blob("a".to_string(), 77, b"old".to_vec());
    assert_eq!(store.highest_known("a"), Some(77));
    let v = store.commit(&changes(vec![("a", Some(b"new".to_vec()))]), 3).unwrap();
    assert_eq!(v, 78);
    assert_eq!(store.read_at("a", 77).unwrap().as_slice(), b"old".as_slice());
}

#[test]
fn a_commit_without_room_changes_nothing() {
    let mut latest = FileMap::new();
    latest.insert("a".to_string(), u128::MAX);
    latest.insert("b".to_string(), 1);
    let mut store = SnapshotStore::open(latest);
    let r = store.commit(&changes(vec![("b", Some(b"x".to_vec())), ("a", Some(b"y".to_vec()))]), 10);
    match r {
        Err(Error::PackageError { message }) => {
            assert_eq!(message, "no version is left above those of `a`")
        }
        other => panic!("unexpected {:?}", other),
    }
    assert_eq!(store.latest_snapshots().get("a"), Some(&u128::MAX));
    assert_eq!(store.latest_snapshots().get("b"), Some(&1));
    assert!(store.read_at("b", 10).is_err());
}

#[test]
fn an_empty_commit_changes_nothing() {
    let mut store = SnapshotStore::new();
    store.commit(&changes(vec![("a", Some(b"1".to_vec()))]), 10).unwrap();
    let v = store.commit(&changes(vec![]), 3).unwrap();
    assert_eq!(v, 3);
    assert_eq!(store.latest_snapshots().len(), 1);
    assert_eq!(store.latest_snapshots().get("a"), Some(&10));
}

#[test]
fn adopt_and_forget() {
    let mut store = SnapshotStore::new();
    store.adopt("a", 9, b"theirs".to_vec());
    assert_eq!(store.latest_snapshots().get("a"), Some(&9));
    assert_eq!(store.read_at("a", 9).unwrap().as_slice(), b"theirs".as_slice());
    store.adopt("a", 9, b"other".to_vec());
    assert_eq!(store.read_at("a", 9).unwrap().as_slice(), b"theirs".as_slice());
    store.forget("a");
    assert!(store.latest_snapshots().get("a").is_none());
    assert_eq!(store.read_at("a", 9).unwrap().as_slice(), b"theirs".as_slice());
}
