use fpm::error::Error;
use fpm::file_map::FileMap;
use fpm::workspace::{simple_rm, Reverted, Workspace, WorkspaceEntry};

fn latest(list: &[(&str, u128)]) -> FileMap<u128> {
    let mut m = FileMap::new();
    for (name, v) in list {
        m.insert(name.to_string(), *v);
    }
    m
}

fn entry(name: &str, deleted: bool, version: Option<u128>, cr: Option<usize>) -> WorkspaceEntry {
    WorkspaceEntry { filename: name.to_string(), deleted, version, cr }
}

#[test]
fn add_makes_a_fresh_entry() {
    let mut w = Workspace::new();
    w.add("a.txt", None);
    let e = w.get("a.txt").unwrap();
    assert_eq!(e.filename, "a.txt");
    assert!(!e.deleted);
    assert_eq!(e.version, None);
    assert_eq!(e.cr, None);
    assert_eq!(w.len(), 1);
}

#[test]
fn add_twice_keeps_one_entry() {
    let mut w = Workspace::new();
    w.add("a.txt", None);
    w.put(WorkspaceEntry { filename: "a.txt".to_string(), deleted: true, version: Some(9), cr: None });
    w.add("a.txt", None);
    assert_eq!(w.len(), 1);
    let e = w.get("a.txt").unwrap();
    assert!(!e.deleted);
    assert_eq!(e.version, None);
}

#[test]
fn set_deleted_flips_the_flag_only() {
    let mut e = entry("a.txt", false, Some(4), Some(2));
    e.set_deleted();
    assert!(e.deleted);
    assert_eq!(e.filename, "a.txt");
    assert_eq!(e.version, Some(4));
    assert_eq!(e.cr, Some(2));
    e.set_deleted();
    assert!(e.deleted);
}

#[test]
fn the_later_of_two_entries_for_a_path_stays() {
    let w = Workspace::from_entries(vec![
        entry("b", false, None, None),
        entry("a", false, Some(1), None),
        entry("b", true, Some(2), None),
    ]);
    assert_eq!(w.len(), 2);
    assert!(w.get("b").unwrap().deleted);
    assert_eq!(w.get("b").unwrap().version, Some(2));
    let names: Vec<String> = w.into_entries().into_iter().map(|e| e.filename).collect();
    assert_eq!(names, vec!["a".to_string(), "b".to_string()]);
}

#[test]
fn removing_a_file_that_is_not_in_latest_is_refused() {
    let mut w = Workspace::new();
    w.add("new.txt", None);
    match simple_rm(&mut w, &latest(&[("other.txt", 1)]), "new.txt") {
        Err(Error::UsageError { message }) => assert_eq!(
            message,
            "new.txt doesn't exists in latest. If added in workspace use `fpm revert new.txt` command instead"
        ),
        other => panic!("unexpected {:?}", other),
    }
    assert!(!w.get("new.txt").unwrap().deleted);
    assert_eq!(w.len(), 1);
}

#[test]
fn removing_a_committed_file_marks_it_deleted() {
    let mut w = Workspace::from_entries(vec![entry("a.txt", false, Some(5), None), entry("b.txt", false, Some(5), None)]);
    let path = simple_rm(&mut w, &latest(&[("a.txt", 5), ("b.txt", 5)]), "a.txt").unwrap();
    assert_eq!(path, "a.txt");
    let e = w.get("a.txt").unwrap();
    assert!(e.deleted);
    assert_eq!(e.version, Some(5));
    assert!(!w.get("b.txt").unwrap().deleted);
    assert_eq!(w.len(), 2);
}

#[test]
fn removing_a_file_without_entry_is_refused() {
    let mut w = Workspace::new();
    match simple_rm(&mut w, &latest(&[("a.txt", 5)]), "a.txt") {
        Err(Error::UsageError { message }) => {
            assert_eq!(message, "a.txt is not present in workspace")
        }
        other => panic!("unexpected {:?}", other),
    }
    assert_eq!(w.len(), 0);
}

#[test]
fn removing_twice_keeps_one_deleted_entry() {
    let mut w = Workspace::from_entries(vec![entry("a.txt", false, Some(5), None)]);
    let l = latest(&[("a.txt", 5)]);
    simple_rm(&mut w, &l, "a.txt").unwrap();
    simple_rm(&mut w, &l, "a.txt").unwrap();
    assert_eq!(w.len(), 1);
    assert!(w.get("a.txt").unwrap().deleted);
}

#[test]
fn reverting_an_added_file_removes_it() {
    let mut w = Workspace::new();
    w.add("new.txt", None);
    match w.revert("new.txt", &latest(&[])).unwrap() {
        Reverted::Remove => {}
        other => panic!("unexpected {:?}", other),
    }
    assert_eq!(w.len(), 0);
}

#[test]
fn reverting_a_committed_file_restores_its_snapshot() {
    let mut w = Workspace::from_entries(vec![entry("a.txt", true, Some(5), None)]);
    match w.revert("a.txt", &latest(&[("a.txt", 7)])).unwrap() {
        Reverted::Restore { version } => assert_eq!(version, 7),
        other => panic!("unexpected {:?}", other),
    }
    assert!(w.get("a.txt").is_none());
}

#[test]
fn reverting_what_was_not_changed_is_refused() {
    let mut w = Workspace::new();
    w.add("b.txt", None);
    match w.revert("a.txt", &latest(&[("a.txt", 7)])) {
        Err(Error::UsageError { message }) => {
            assert_eq!(message, "a.txt is not present in workspace")
        }
        other => panic!("unexpected {:?}", other),
    }
    assert_eq!(w.len(), 1);
}

#[test]
fn clearing_the_main_workspace_keeps_the_change_requests() {
    let mut w = Workspace::from_entries(vec![
        entry("a", false, None, None),
        entry("-/1/b", false, None, Some(1)),
        entry("c", true, Some(3), None),
        entry("-/2/-/deleted.ftd", false, None, Some(2)),
    ]);
    w.clear_main();
    assert_eq!(w.len(), 2);
    assert!(w.contains_key("-/1/b"));
    assert!(w.contains_key("-/2/-/deleted.ftd"));
    assert!(!w.contains_key("a"));
    assert_eq!(w.entry_at(0).filename, "-/1/b");
}

#[test]
fn discard_takes_an_entry_out() {
    let mut w = Workspace::new();
    w.add("a", None);
    assert!(w.discard("b").is_none());
    assert_eq!(w.discard("a").unwrap().filename, "a");
    assert_eq!(w.len(), 0);
}

#[test]
fn a_change_request_has_its_own_part_of_the_workspace() {
    let mut w = Workspace::new();
    w.add("a.txt", None);
    w.add("a.txt", Some(3));
    w.add("a.txt", Some(12));
    assert_eq!(w.len(), 3);
    assert_eq!(w.get("a.txt").unwrap().cr, None);
    let e = w.get("-/3/a.txt").unwrap();
    assert_eq!(e.filename, "-/3/a.txt");
    assert_eq!(e.cr, Some(3));
    assert!(!e.deleted);
    assert_eq!(w.get("-/12/a.txt").unwrap().cr, Some(12));
}
