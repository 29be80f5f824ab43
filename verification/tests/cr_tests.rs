use fpm::cr::{cr_deleted_file_path, cr_path, cr_rm, CRAbout, CRDeleted, FileEdit};
use fpm::error::Error;
use fpm::file_map::FileMap;
use fpm::repository::{close_cr, create_cr, rm, Removed, Repository};
use fpm::store::SnapshotStore;
use fpm::workspace::{Workspace, WorkspaceEntry};

fn manifest(list: &[(&str, u128)]) -> FileMap<FileEdit> {
    let mut m = FileMap::new();
    for (name, v) in list {
        m.insert(name.to_string(), FileEdit { version: *v, content: name.as_bytes().to_vec() });
    }
    m
}

fn repository() -> Repository {
    Repository { store: SnapshotStore::new(), workspace: Workspace::new(), change_requests: Vec::new() }
}

#[test]
fn paths_of_a_change_request() {
    assert_eq!(cr_path(7), "-/7");
    assert_eq!(cr_path(0), "-/0");
    assert_eq!(cr_deleted_file_path(12), "-/12/-/deleted.ftd");
}

#[test]
fn a_new_ledger_line() {
    let d = CRDeleted::new("a.txt", 9);
    assert_eq!(d.filename, "a.txt");
    assert_eq!(d.version, 9);
}

#[test]
fn unset_open_closes_the_record() {
    let about = CRAbout { cr_number: 3, open: true, title: Some("t".to_string()) }.unset_open();
    assert!(!about.open);
    assert_eq!(about.cr_number, 3);
    assert_eq!(about.title.as_deref(), Some("t"));
}

#[test]
fn cr_delete_enters_the_file_in_the_ledger() {
    let mut ledger = vec![CRDeleted::new("x.txt", 1)];
    let mut w = Workspace::new();
    cr_rm(&manifest(&[("a.txt", 42)]), &mut ledger, &mut w, "a.txt", 5).unwrap();
    assert_eq!(ledger.len(), 2);
    assert_eq!(ledger[0].filename, "x.txt");
    assert_eq!(ledger[1].filename, "a.txt");
    assert_eq!(ledger[1].version, 42);
    let e = w.get("-/5/-/deleted.ftd").unwrap();
    assert_eq!(e.filename, "-/5/-/deleted.ftd");
    assert_eq!(e.cr, Some(5));
    assert!(!e.deleted);
    assert_eq!(e.version, None);
    assert_eq!(w.len(), 1);
}

#[test]
fn cr_delete_twice_is_refused_the_second_time() {
    let mut ledger = Vec::new();
    let mut w = Workspace::new();
    let m = manifest(&[("a.txt", 42)]);
    cr_rm(&m, &mut ledger, &mut w, "a.txt", 5).unwrap();
    match cr_rm(&m, &mut ledger, &mut w, "a.txt", 5) {
        Err(Error::UsageError { message }) => assert_eq!(message, "a.txt is already deleted in CR#5"),
        other => panic!("unexpected {:?}", other),
    }
    assert_eq!(ledger.len(), 1);
    assert_eq!(w.len(), 1);
}

#[test]
fn cr_delete_of_a_file_that_the_remote_lacks_is_refused() {
    let mut ledger = Vec::new();
    let mut w = Workspace::new();
    match cr_rm(&manifest(&[("a.txt", 42)]), &mut ledger, &mut w, "b.txt", 5) {
        Err(Error::UsageError { message }) => {
            assert_eq!(message, "b.txt is not present in remote manifest.")
        }
        other => panic!("unexpected {:?}", other),
    }
    assert!(ledger.is_empty());
    assert_eq!(w.len(), 0);
}

#[test]
fn the_marker_entry_is_made_once() {
    let mut ledger = Vec::new();
    let mut w = Workspace::new();
    w.put(WorkspaceEntry { filename: "-/5/-/deleted.ftd".to_string(), deleted: false, version: Some(8), cr: Some(5) });
    let m = manifest(&[("a.txt", 42), ("b.txt", 43)]);
    cr_rm(&m, &mut ledger, &mut w, "a.txt", 5).unwrap();
    cr_rm(&m, &mut ledger, &mut w, "b.txt", 5).unwrap();
    assert_eq!(w.len(), 1);
    assert_eq!(w.get("-/5/-/deleted.ftd").unwrap().version, Some(8));
    assert_eq!(ledger.len(), 2);
}

#[test]
fn change_requests_are_numbered_upward() {
    let mut r = repository();
    assert_eq!(create_cr(&mut r, Some("first")).unwrap(), 1);
    assert_eq!(create_cr(&mut r, None).unwrap(), 2);
    assert_eq!(create_cr(&mut r, Some("third")).unwrap(), 3);
    assert_eq!(r.change_requests.len(), 3);
    assert!(r.change_requests.iter().all(|c| c.about.open));
    assert_eq!(r.change_requests[0].about.title.as_deref(), Some("first"));
    assert_eq!(r.change_requests[1].about.title, None);
    assert!(r.change_requests[2].deleted_files.is_empty());
    assert_eq!(r.find_cr(2), Some(1));
    assert_eq!(r.find_cr(4), None);
}

#[test]
fn no_number_is_left_after_the_highest() {
    let mut r = repository();
    r.change_requests.push(fpm::repository::ChangeRequest {
        about: CRAbout { cr_number: usize::MAX, open: true, title: None },
        deleted_files: Vec::new(),
    });
    assert!(matches!(create_cr(&mut r, None), Err(Error::PackageError { .. })));
    assert_eq!(r.change_requests.len(), 1);
}

#[test]
fn close_keeps_the_record_and_the_ledger() {
    let mut r = repository();
    create_cr(&mut r, Some("first")).unwrap();
    create_cr(&mut r, Some("second")).unwrap();
    rm(&mut r, &manifest(&[("a.txt", 1)]), "a.txt", Some("2")).unwrap();
    close_cr(&mut r, "2").unwrap();
    assert!(r.change_requests[0].about.open);
    assert!(!r.change_requests[1].about.open);
    assert_eq!(r.change_requests[1].about.title.as_deref(), Some("second"));
    assert_eq!(r.change_requests[1].deleted_files.len(), 1);
    assert_eq!(r.workspace.len(), 1);
    close_cr(&mut r, "2").unwrap();
    assert!(!r.change_requests[1].about.open);
    assert_eq!(r.change_requests.len(), 2);
}

#[test]
fn close_needs_a_number_of_a_change_request() {
    let mut r = repository();
    create_cr(&mut r, None).unwrap();
    match close_cr(&mut r, "one") {
        Err(Error::UsageError { message }) => {
            assert_eq!(message, "`one` is not the number of a change request")
        }
        other => panic!("unexpected {:?}", other),
    }
    match close_cr(&mut r, "7") {
        Err(Error::NotFound { path, version }) => {
            assert_eq!(path, "-/7");
            assert_eq!(version, None);
        }
        other => panic!("unexpected {:?}", other),
    }
    assert!(r.change_requests[0].about.open);
}

#[test]
fn rm_without_change_request_removes_in_the_main_workspace() {
    let mut latest = FileMap::new();
    latest.insert("a.txt".to_string(), 3);
    let mut r = Repository {
        store: SnapshotStore::open(latest),
        workspace: Workspace::from_entries(vec![WorkspaceEntry {
            filename: "a.txt".to_string(),
            deleted: false,
            version: Some(3),
            cr: None,
        }]),
        change_requests: Vec::new(),
    };
    match rm(&mut r, &manifest(&[]), "a.txt", None).unwrap() {
        Removed::WorkingCopy { path } => assert_eq!(path, "a.txt"),
        other => panic!("unexpected {:?}", other),
    }
    assert!(r.workspace.get("a.txt").unwrap().deleted);
    assert!(matches!(rm(&mut r, &manifest(&[]), "b.txt", None), Err(Error::UsageError { .. })));
}

#[test]
fn rm_in_a_change_request_fills_its_ledger() {
    let mut r = repository();
    create_cr(&mut r, None).unwrap();
    create_cr(&mut r, None).unwrap();
    let m = manifest(&[("a.txt", 11)]);
    match rm(&mut r, &m, "a.txt", Some("2")).unwrap() {
        Removed::InChangeRequest { cr } => assert_eq!(cr, 2),
        other => panic!("unexpected {:?}", other),
    }
    assert!(r.change_requests[0].deleted_files.is_empty());
    assert_eq!(r.change_requests[1].deleted_files.len(), 1);
    assert_eq!(r.change_requests[1].deleted_files[0].version, 11);
    assert!(r.workspace.contains_key("-/2/-/deleted.ftd"));
    assert!(matches!(rm(&mut r, &m, "a.txt", Some("2")), Err(Error::UsageError { .. })));
    assert_eq!(r.change_requests[1].deleted_files.len(), 1);
    rm(&mut r, &m, "a.txt", Some("1")).unwrap();
    assert_eq!(r.change_requests[0].deleted_files.len(), 1);
}

#[test]
fn rm_needs_an_existing_change_request() {
    let mut r = repository();
    let m = manifest(&[("a.txt", 11)]);
    assert!(matches!(rm(&mut r, &m, "a.txt", Some("x")), Err(Error::UsageError { .. })));
    assert!(matches!(rm(&mut r, &m, "a.txt", Some("1")), Err(Error::NotFound { .. })));
    assert_eq!(r.workspace.len(), 0);
}

#[test]
fn add_needs_an_existing_change_request() {
    let mut r = repository();
    fpm::repository::add(&mut r, "a.txt", None).unwrap();
    assert!(matches!(fpm::repository::add(&mut r, "a.txt", Some("two")), Err(Error::UsageError { .. })));
    assert!(matches!(fpm::repository::add(&mut r, "a.txt", Some("2")), Err(Error::NotFound { .. })));
    assert_eq!(r.workspace.len(), 1);
    create_cr(&mut r, None).unwrap();
    create_cr(&mut r, None).unwrap();
    fpm::repository::add(&mut r, "a.txt", Some("2")).unwrap();
    assert_eq!(r.workspace.len(), 2);
    assert_eq!(r.workspace.get("-/2/a.txt").unwrap().cr, Some(2));
    assert_eq!(r.workspace.get("a.txt").unwrap().cr, None);
}

#[test]
fn revert_goes_back_to_the_latest_snapshot() {
    let mut latest = FileMap::new();
    latest.insert("a.txt".to_string(), 3);
    let mut r = Repository {
        store: SnapshotStore::open(latest),
        workspace: Workspace::new(),
        change_requests: Vec::new(),
    };
    fpm::repository::add(&mut r, "a.txt", None).unwrap();
    fpm::repository::add(&mut r, "b.txt", None).unwrap();
    assert!(matches!(
        fpm::repository::revert(&mut r, "a.txt").unwrap(),
        fpm::workspace::Reverted::Restore { version: 3 }
    ));
    assert!(matches!(
        fpm::repository::revert(&mut r, "b.txt").unwrap(),
        fpm::workspace::Reverted::Remove
    ));
    assert!(matches!(fpm::repository::revert(&mut r, "a.txt"), Err(Error::UsageError { .. })));
    assert_eq!(r.workspace.len(), 0);
}
