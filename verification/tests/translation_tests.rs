use fpm::error::Error;
use fpm::file::{Document, File};
use fpm::file_map::FileMap;
use fpm::store::SnapshotStore;
use fpm::tracker::{get_tracks, Track};
use fpm::translation::{TranslatedDocument, TranslationData};

fn doc(id: &str, content: &str) -> File {
    File::Markdown(Document {
        package_name: "pkg".to_string(),
        id: id.to_string(),
        content: content.to_string(),
        parent_path: "/root".to_string(),
    })
}

fn docs(list: &[(&str, &str)]) -> FileMap<File> {
    let mut m = FileMap::new();
    for (id, content) in list {
        m.insert(id.to_string(), doc(id, content));
    }
    m
}

fn snapshots(list: &[(&str, u128)]) -> FileMap<u128> {
    let mut m = FileMap::new();
    for (name, v) in list {
        m.insert(name.to_string(), *v);
    }
    m
}

fn track(filename: &str, self_timestamp: u128, merged: Option<u128>) -> Track {
    Track {
        filename: filename.to_string(),
        package: None,
        version: None,
        other_timestamp: None,
        self_timestamp,
        last_merged_version: merged,
    }
}

fn tracks(list: Vec<(&str, Vec<Track>)>) -> FileMap<FileMap<Track>> {
    let mut m = FileMap::new();
    for (file, records) in list {
        m.insert(file.to_string(), get_tracks(Some(records)));
    }
    m
}

fn content_of(file: &File) -> &str {
    match file {
        File::Markdown(d) | File::Ftd(d) | File::Code(d) => d.content.as_str(),
        _ => panic!("not a document"),
    }
}

#[test]
fn a_file_without_translation_is_missing() {
    let status = TranslatedDocument::get_translated_document(
        &snapshots(&[("a.txt", 200)]),
        &docs(&[("a.txt", "hello")]),
        &docs(&[]),
        &tracks(vec![]),
    )
    .unwrap();
    assert_eq!(status.len(), 1);
    match status.get("a.txt") {
        Some(TranslatedDocument::Missing { original }) => assert_eq!(content_of(original), "hello"),
        other => panic!("unexpected {:?}", other),
    }
}

#[test]
fn a_translation_without_track_file_is_never_marked() {
    let status = TranslatedDocument::get_translated_document(
        &snapshots(&[("a.txt", 200)]),
        &docs(&[("a.txt", "hello")]),
        &docs(&[("a.txt", "bonjour")]),
        &tracks(vec![]),
    )
    .unwrap();
    match status.get("a.txt") {
        Some(TranslatedDocument::NeverMarked { original, translated }) => {
            assert_eq!(content_of(original), "hello");
            assert_eq!(content_of(translated), "bonjour");
        }
        other => panic!("unexpected {:?}", other),
    }
}

#[test]
fn a_track_without_merged_version_is_never_marked() {
    let status = TranslatedDocument::get_translated_document(
        &snapshots(&[("a.txt", 200)]),
        &docs(&[("a.txt", "hello")]),
        &docs(&[("a.txt", "bonjour")]),
        &tracks(vec![("a.txt", vec![track("a.txt", 150, None)])]),
    )
    .unwrap();
    assert!(matches!(status.get("a.txt"), Some(TranslatedDocument::NeverMarked { .. })));
}

#[test]
fn a_track_file_without_record_of_the_file_is_never_marked() {
    let status = TranslatedDocument::get_translated_document(
        &snapshots(&[("a.txt", 200)]),
        &docs(&[("a.txt", "hello")]),
        &docs(&[("a.txt", "bonjour")]),
        &tracks(vec![("a.txt", vec![track("b.txt", 150, Some(100))])]),
    )
    .unwrap();
    assert!(matches!(status.get("a.txt"), Some(TranslatedDocument::NeverMarked { .. })));
}

#[test]
fn a_merged_version_below_the_latest_is_outdated() {
    let status = TranslatedDocument::get_translated_document(
        &snapshots(&[("a.txt", 200)]),
        &docs(&[("a.txt", "hello world")]),
        &docs(&[("a.txt", "bonjour")]),
        &tracks(vec![("a.txt", vec![track("a.txt", 150, Some(100))])]),
    )
    .unwrap();
    match status.get("a.txt") {
        Some(TranslatedDocument::Outdated {
            original,
            translated,
            last_marked_on,
            original_latest,
            translated_latest,
        }) => {
            assert_eq!(content_of(original), "hello world");
            assert_eq!(content_of(translated), "bonjour");
            assert_eq!(*last_marked_on, 100);
            assert_eq!(*original_latest, 200);
            assert_eq!(*translated_latest, 150);
        }
        other => panic!("unexpected {:?}", other),
    }
}

#[test]
fn a_merged_version_at_the_latest_is_up_to_date() {
    for merged in [200, 201, u128::MAX] {
        let status = TranslatedDocument::get_translated_document(
            &snapshots(&[("a.txt", 200)]),
            &docs(&[("a.txt", "hello world")]),
            &docs(&[("a.txt", "bonjour")]),
            &tracks(vec![("a.txt", vec![track("a.txt", 150, Some(merged))])]),
        )
        .unwrap();
        match status.get("a.txt") {
            Some(TranslatedDocument::UptoDate { translated }) => {
                assert_eq!(content_of(translated), "bonjour")
            }
            other => panic!("unexpected {:?}", other),
        }
    }
}

#[test]
fn every_file_of_the_original_gets_one_status() {
    let status = TranslatedDocument::get_translated_document(
        &snapshots(&[("d.txt", 4), ("a.txt", 1), ("c.txt", 3), ("b.txt", 2)]),
        &docs(&[("a.txt", "a"), ("b.txt", "b"), ("c.txt", "c"), ("d.txt", "d"), ("e.txt", "e")]),
        &docs(&[("b.txt", "B"), ("c.txt", "C"), ("d.txt", "D"), ("z.txt", "Z")]),
        &tracks(vec![
            ("c.txt", vec![track("c.txt", 9, Some(2))]),
            ("d.txt", vec![track("d.txt", 9, Some(4))]),
        ]),
    )
    .unwrap();
    assert_eq!(status.len(), 4);
    assert!(matches!(status.get("a.txt"), Some(TranslatedDocument::Missing { .. })));
    assert!(matches!(status.get("b.txt"), Some(TranslatedDocument::NeverMarked { .. })));
    assert!(matches!(status.get("c.txt"), Some(TranslatedDocument::Outdated { .. })));
    assert!(matches!(status.get("d.txt"), Some(TranslatedDocument::UptoDate { .. })));
    assert_eq!(status.get("a.txt").unwrap().status().as_str(), "Missing");
    assert_eq!(status.get("b.txt").unwrap().status().as_str(), "NeverMarked");
    assert_eq!(status.get("c.txt").unwrap().status().as_str(), "Outdated");
    assert_eq!(status.get("d.txt").unwrap().status().as_str(), "UptoDate");
    assert!(status.get("e.txt").is_none());
    assert!(status.get("z.txt").is_none());
}

#[test]
fn status_is_the_same_on_the_same_inputs() {
    let s = snapshots(&[("a.txt", 200), ("b.txt", 5)]);
    let o = docs(&[("a.txt", "hello world"), ("b.txt", "b")]);
    let t = docs(&[("a.txt", "bonjour")]);
    let k = tracks(vec![("a.txt", vec![track("a.txt", 150, Some(100))])]);
    let first = TranslatedDocument::get_translated_document(&s, &o, &t, &k).unwrap();
    let second = TranslatedDocument::get_translated_document(&s, &o, &t, &k).unwrap();
    assert_eq!(format!("{:?}", first), format!("{:?}", second));
    assert_eq!(s.get("a.txt"), Some(&200));
    assert_eq!(o.len(), 2);
}

#[test]
fn readme_falls_back_to_index() {
    let status = TranslatedDocument::get_translated_document(
        &snapshots(&[("README.md", 10)]),
        &docs(&[("index.md", "the index")]),
        &docs(&[]),
        &tracks(vec![]),
    )
    .unwrap();
    match status.get("README.md") {
        Some(TranslatedDocument::Missing { original }) => {
            assert_eq!(content_of(original), "the index");
            assert_eq!(original.get_id(), "index.md");
        }
        other => panic!("unexpected {:?}", other),
    }
}

#[test]
fn readme_itself_comes_before_index() {
    let status = TranslatedDocument::get_translated_document(
        &snapshots(&[("README.md", 10)]),
        &docs(&[("index.md", "the index"), ("README.md", "the readme")]),
        &docs(&[]),
        &tracks(vec![]),
    )
    .unwrap();
    match status.get("README.md") {
        Some(TranslatedDocument::Missing { original }) => {
            assert_eq!(content_of(original), "the readme")
        }
        other => panic!("unexpected {:?}", other),
    }
}

#[test]
fn only_readme_falls_back() {
    let r = TranslatedDocument::get_translated_document(
        &snapshots(&[("about.md", 10)]),
        &docs(&[("index.md", "the index")]),
        &docs(&[]),
        &tracks(vec![]),
    );
    match r {
        Err(Error::PackageError { message }) => assert_eq!(message, "Could not find `about.md`"),
        other => panic!("unexpected {:?}", other),
    }
}

#[test]
fn readme_without_index_cannot_be_found() {
    let r = TranslatedDocument::get_translated_document(
        &snapshots(&[("README.md", 10)]),
        &docs(&[("other.md", "x")]),
        &docs(&[]),
        &tracks(vec![]),
    );
    match r {
        Err(Error::PackageError { message }) => assert_eq!(message, "Could not find `README.md`"),
        other => panic!("unexpected {:?}", other),
    }
}

#[test]
fn the_first_unresolved_file_is_reported() {
    let r = TranslatedDocument::get_translated_document(
        &snapshots(&[("z.md", 1), ("b.md", 1), ("a.md", 1), ("c.md", 1)]),
        &docs(&[("a.md", "x")]),
        &docs(&[]),
        &tracks(vec![]),
    );
    match r {
        Err(Error::PackageError { message }) => assert_eq!(message, "Could not find `b.md`"),
        other => panic!("unexpected {:?}", other),
    }
}

fn outdated_scenario() -> (TranslatedDocument, SnapshotStore) {
    let status = TranslatedDocument::get_translated_document(
        &snapshots(&[("a.txt", 200)]),
        &docs(&[("a.txt", "hello world")]),
        &docs(&[("a.txt", "bonjour")]),
        &tracks(vec![("a.txt", vec![track("a.txt", 150, Some(100))])]),
    )
    .unwrap();
    let mut status = status;
    let entry = status.remove("a.txt").unwrap();
    let mut store = SnapshotStore::open(snapshots(&[("a.txt", 200)]));
    assert!(store.archive_blob("a.txt".to_string(), 100, b"hello".to_vec()));
    assert!(store.archive_blob("a.txt".to_string(), 200, b"hello world".to_vec()));
    (entry, store)
}

#[test]
fn outdated_diff_scenario() {
    let (entry, store) = outdated_scenario();
    match &entry {
        TranslatedDocument::Outdated { last_marked_on, original_latest, translated_latest, .. } => {
            assert_eq!((*last_marked_on, *original_latest, *translated_latest), (100, 200, 150));
        }
        other => panic!("unexpected {:?}", other),
    }
    let rendering = entry.html(&store).unwrap();
    assert_eq!(content_of(&rendering.main), "bonjour");
    assert_eq!(content_of(rendering.fallback.as_ref().unwrap()), "hello world");
    assert_eq!(rendering.translated_data.last_marked_on, Some(100));
    assert_eq!(rendering.translated_data.original_latest, Some(200));
    assert_eq!(rendering.translated_data.translated_latest, Some(150));
    let diff = rendering.translated_data.diff.unwrap();
    assert!(diff.contains("-hello\n"), "{}", diff);
    assert!(diff.contains("+hello world\n"), "{}", diff);
    assert!(diff.starts_with("\\--- original\n+++ modified\n"), "{}", diff);
}

#[test]
fn outdated_needs_both_versions_in_the_archive() {
    let (entry, _) = outdated_scenario();
    let mut store = SnapshotStore::new();
    match entry.html(&store) {
        Err(Error::NotFound { path, version }) => {
            assert_eq!(path, "a.txt");
            assert_eq!(version, Some(100));
        }
        other => panic!("unexpected {:?}", other),
    }
    store.archive_blob("a.txt".to_string(), 100, b"hello".to_vec());
    match entry.html(&store) {
        Err(Error::NotFound { path, version }) => {
            assert_eq!(path, "a.txt");
            assert_eq!(version, Some(200));
        }
        other => panic!("unexpected {:?}", other),
    }
}

#[test]
fn outdated_needs_text() {
    let (entry, _) = outdated_scenario();
    let mut store = SnapshotStore::new();
    store.archive_blob("a.txt".to_string(), 100, vec![0xff, 0xfe]);
    store.archive_blob("a.txt".to_string(), 200, b"hello world".to_vec());
    match entry.html(&store) {
        Err(Error::PackageError { message }) => assert_eq!(message, "`a.txt` is not text"),
        other => panic!("unexpected {:?}", other),
    }
}

#[test]
fn other_kinds_render_without_diff() {
    let store = SnapshotStore::new();
    let missing = TranslatedDocument::Missing { original: doc("a", "o") };
    let r = missing.html(&store).unwrap();
    assert_eq!(content_of(&r.main), "o");
    assert!(r.fallback.is_none());
    assert!(r.translated_data.diff.is_none());
    assert!(r.translated_data.last_marked_on.is_none());

    let never = TranslatedDocument::NeverMarked { original: doc("a", "o"), translated: doc("a", "t") };
    let r = never.html(&store).unwrap();
    assert_eq!(content_of(&r.main), "o");
    assert_eq!(content_of(r.fallback.as_ref().unwrap()), "t");
    assert!(r.translated_data.original_latest.is_none());

    let upto = TranslatedDocument::UptoDate { translated: doc("a", "t") };
    let r = upto.html(&store).unwrap();
    assert_eq!(content_of(&r.main), "t");
    assert!(r.fallback.is_none());
    assert!(r.translated_data.translated_latest.is_none());
}

#[test]
fn default_translation_data_is_empty() {
    let d = TranslationData::default();
    assert!(d.diff.is_none());
    assert!(d.status.is_none());
    assert!(d.last_marked_on.is_none());
    assert!(d.original_latest.is_none());
    assert!(d.translated_latest.is_none());
}
