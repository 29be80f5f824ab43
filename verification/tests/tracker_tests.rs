use fpm::error::Error;
use fpm::file_map::FileMap;
use fpm::tracker::{get_tracks, mark_up_to_date, start_tracking, Track};

fn snapshots(list: &[(&str, u128)]) -> FileMap<u128> {
    let mut m = FileMap::new();
    for (name, v) in list {
        m.insert(name.to_string(), *v);
    }
    m
}

fn track(filename: &str, self_timestamp: u128, merged: Option<u128>) -> Track {
    Track {
        filename: filename.to_string(),
        package: Some("pkg".to_string()),
        version: None,
        other_timestamp: None,
        self_timestamp,
        last_merged_version: merged,
    }
}

#[test]
fn no_track_file_means_no_tracks() {
    assert!(get_tracks(None).is_empty());
    assert!(get_tracks(Some(vec![])).is_empty());
}

#[test]
fn tracks_are_keyed_by_the_file_they_track() {
    let m = get_tracks(Some(vec![track("b", 1, None), track("a", 2, Some(9)), track("b", 3, Some(4))]));
    assert_eq!(m.len(), 2);
    assert_eq!(m.get("a").unwrap().self_timestamp, 2);
    assert_eq!(m.get("a").unwrap().last_merged_version, Some(9));
    assert_eq!(m.get("b").unwrap().self_timestamp, 3);
    assert_eq!(m.get("b").unwrap().package.as_deref(), Some("pkg"));
}

#[test]
fn start_tracking_pins_the_own_version() {
    let mut tracks = FileMap::new();
    let made = start_tracking(&mut tracks, &snapshots(&[("fr.md", 7)]), &snapshots(&[("en.md", 3)]), "fr.md", "en.md").unwrap();
    assert!(made);
    let record = tracks.get("fr.md").unwrap().get("en.md").unwrap();
    assert_eq!(record.filename, "en.md");
    assert_eq!(record.self_timestamp, 7);
    assert_eq!(record.last_merged_version, None);
    assert_eq!(record.other_timestamp, None);
    assert_eq!(record.package, None);
}

#[test]
fn start_tracking_twice_changes_nothing() {
    let mut tracks = FileMap::new();
    let own = snapshots(&[("fr.md", 7)]);
    let src = snapshots(&[("en.md", 3)]);
    start_tracking(&mut tracks, &own, &src, "fr.md", "en.md").unwrap();
    mark_up_to_date(&mut tracks, &src, "fr.md", Some("en.md")).unwrap();
    let made = start_tracking(&mut tracks, &snapshots(&[("fr.md", 70)]), &src, "fr.md", "en.md").unwrap();
    assert!(!made);
    let record = tracks.get("fr.md").unwrap().get("en.md").unwrap();
    assert_eq!(record.self_timestamp, 7);
    assert_eq!(record.last_merged_version, Some(3));
}

#[test]
fn start_tracking_needs_synced_files() {
    let mut tracks = FileMap::new();
    match start_tracking(&mut tracks, &snapshots(&[("fr.md", 7)]), &snapshots(&[]), "fr.md", "en.md") {
        Err(Error::UsageError { message }) => assert_eq!(
            message,
            "en.md is not synced yet. suggestion: Run `fpm sync en.md` to sync the file"
        ),
        other => panic!("unexpected {:?}", other),
    }
    match start_tracking(&mut tracks, &snapshots(&[]), &snapshots(&[("en.md", 1)]), "fr.md", "en.md") {
        Err(Error::UsageError { message }) => assert_eq!(
            message,
            "fr.md is not synced yet. suggestion: Run `fpm sync fr.md` to sync the file"
        ),
        other => panic!("unexpected {:?}", other),
    }
    assert!(tracks.is_empty());
}

#[test]
fn marking_records_the_latest_version_of_the_source() {
    let mut tracks = FileMap::new();
    tracks.insert("a.txt".to_string(), get_tracks(Some(vec![track("a.txt", 150, Some(100)), track("b.txt", 1, None)])));
    mark_up_to_date(&mut tracks, &snapshots(&[("a.txt", 200)]), "a.txt", None).unwrap();
    let records = tracks.get("a.txt").unwrap();
    assert_eq!(records.get("a.txt").unwrap().last_merged_version, Some(200));
    assert_eq!(records.get("a.txt").unwrap().other_timestamp, Some(200));
    assert_eq!(records.get("a.txt").unwrap().self_timestamp, 150);
    assert_eq!(records.get("a.txt").unwrap().package.as_deref(), Some("pkg"));
    assert_eq!(records.get("b.txt").unwrap().last_merged_version, None);
}

#[test]
fn marking_needs_a_track_and_a_snapshot() {
    let mut tracks = FileMap::new();
    match mark_up_to_date(&mut tracks, &snapshots(&[("a.txt", 200)]), "a.txt", None) {
        Err(Error::UsageError { message }) => {
            assert_eq!(message, "a.txt is not being tracked by a.txt")
        }
        other => panic!("unexpected {:?}", other),
    }
    tracks.insert("a.txt".to_string(), get_tracks(Some(vec![track("b.txt", 150, None)])));
    match mark_up_to_date(&mut tracks, &snapshots(&[("a.txt", 200)]), "a.txt", Some("b.txt")) {
        Err(Error::UsageError { message }) => assert_eq!(
            message,
            "b.txt is not synced yet. suggestion: Run `fpm sync b.txt` to sync the file"
        ),
        other => panic!("unexpected {:?}", other),
    }
    assert_eq!(tracks.get("a.txt").unwrap().get("b.txt").unwrap().last_merged_version, None);
}
