use fpm::snapshot::{create_latest_snapshots, get_latest_snapshots, Snapshot};

fn snap(name: &str, timestamp: u128) -> Snapshot {
    Snapshot { filename: name.to_string(), timestamp }
}

#[test]
fn manifest_of_no_snapshot_is_the_import_line() {
    assert_eq!(create_latest_snapshots(&[]), "-- import: fpm");
}

#[test]
fn manifest_of_two_snapshots() {
    let list = vec![snap("FPM.ftd", 1638706756293421000), snap("blog.ftd", 7)];
    assert_eq!(
        create_latest_snapshots(&list),
        "-- import: fpm\n\n-- fpm.snapshot: FPM.ftd\ntimestamp: 1638706756293421000\n\n-- fpm.snapshot: blog.ftd\ntimestamp: 7"
    );
}

#[test]
fn no_manifest_means_no_snapshots() {
    let m = get_latest_snapshots(None);
    assert!(m.is_empty());
    assert_eq!(m.len(), 0);
}

#[test]
fn an_empty_manifest_means_no_snapshots() {
    let m = get_latest_snapshots(Some(vec![]));
    assert!(m.is_empty());
}

#[test]
fn the_last_record_of_a_file_stays() {
    let m = get_latest_snapshots(Some(vec![snap("b.ftd", 1), snap("a.ftd", 2), snap("b.ftd", 3)]));
    assert_eq!(m.len(), 2);
    assert_eq!(m.get("a.ftd"), Some(&2));
    assert_eq!(m.get("b.ftd"), Some(&3));
    assert_eq!(m.get("c.ftd"), None);
}

#[test]
fn snapshots_are_walked_in_name_order() {
    let m = get_latest_snapshots(Some(vec![snap("c", 1), snap("a", 2), snap("b", 3), snap("B", 4)]));
    let names: Vec<&str> = (0..m.len()).map(|i| m.name_at(i).as_str()).collect();
    assert_eq!(names, vec!["B", "a", "b", "c"]);
    let items: Vec<u128> = (0..m.len()).map(|i| *m.item_at(i)).collect();
    assert_eq!(items, vec![4, 2, 3, 1]);
}

#[test]
fn names_in_the_history() {
    assert_eq!(fpm::snapshot::snapshot_id("a.txt", 100), "a.100.txt");
    assert_eq!(fpm::snapshot::snapshot_id("docs/guide.v1.md", 7), "docs/guide.v1.7.md");
    assert_eq!(fpm::snapshot::snapshot_id("README", 7), "README.7");
    assert_eq!(fpm::snapshot::snapshot_id(".gitignore", 0), ".0.gitignore");
    assert_eq!(fpm::snapshot::track_file("a.txt"), "a.txt.track");
}

#[test]
fn places_in_the_history() {
    assert_eq!(fpm::config::history_path("a.txt", "/pkg", 100), "/pkg/.history/a.100.txt");
    assert_eq!(fpm::config::track_path("docs/a.txt", "/pkg"), "/pkg/.tracks/docs/a.txt.track");
}
