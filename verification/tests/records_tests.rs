use fpm::cr::{create_cr_about, create_deleted_files, CRAbout, CRDeleted};
use fpm::tracker::{create_tracks, Track};
use fpm::workspace::{write_workspace, WorkspaceEntry};

#[test]
fn a_track_file_without_records() {
    assert_eq!(create_tracks(&[]), "-- import: fpm");
}

#[test]
fn a_track_file_lists_what_is_known() {
    let tracks = vec![
        Track {
            filename: "a.txt".to_string(),
            package: None,
            version: None,
            other_timestamp: None,
            self_timestamp: 150,
            last_merged_version: None,
        },
        Track {
            filename: "b.txt".to_string(),
            package: Some("amitu.com".to_string()),
            version: Some("v2".to_string()),
            other_timestamp: Some(7),
            self_timestamp: 0,
            last_merged_version: Some(100),
        },
    ];
    assert_eq!(
        create_tracks(&tracks),
        "-- import: fpm\n\n-- fpm.track: a.txt\nself-timestamp: 150\n\n-- fpm.track: b.txt\nself-timestamp: 0\npackage: amitu.com\nversion: v2\nother-timestamp: 7\nlast-merged-version: 100"
    );
}

#[test]
fn the_workspace_manifest() {
    assert_eq!(write_workspace(&[]), "-- import: fpm");
    let entries = vec![
        WorkspaceEntry { filename: "a.txt".to_string(), deleted: false, version: None, cr: None },
        WorkspaceEntry { filename: "-/3/b.txt".to_string(), deleted: true, version: Some(12), cr: Some(3) },
    ];
    assert_eq!(
        write_workspace(&entries),
        "-- import: fpm\n\n-- fpm.client-workspace: a.txt\ndeleted: false\n\n-- fpm.client-workspace: -/3/b.txt\ndeleted: true\nversion: 12\ncr: 3"
    );
}

#[test]
fn the_record_of_a_change_request() {
    assert_eq!(
        create_cr_about(&CRAbout { cr_number: 4, open: true, title: Some("Fix typos".to_string()) }),
        "-- import: fpm\n\n-- fpm.cr-about: Fix typos\ncr-number: 4\nopen: true"
    );
    assert_eq!(
        create_cr_about(&CRAbout { cr_number: 0, open: false, title: None }),
        "-- import: fpm\n\n-- fpm.cr-about:\ncr-number: 0\nopen: false"
    );
}

#[test]
fn the_ledger_of_a_change_request() {
    assert_eq!(create_deleted_files(&[]), "-- import: fpm");
    assert_eq!(
        create_deleted_files(&[CRDeleted::new("a.txt", 5), CRDeleted::new("b/c.txt", 6)]),
        "-- import: fpm\n\n-- fpm.cr-deleted: a.txt\nversion: 5\n\n-- fpm.cr-deleted: b/c.txt\nversion: 6"
    );
}
