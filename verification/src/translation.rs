//! The translation status of a translated package: for each file of the
//! original package, how its translation stands against it.

use crate::diff::{escaped, get_diff, patch_text};
use crate::error::{Error, ErrorView};
use crate::file::{File, FileView};
use crate::file_map::{lemma_sorted_distinct, FileMap};
use crate::store::SnapshotStore;
use crate::text::{join3, str_equal, text_of};
use crate::tracker::{tracks_wf, Track, TrackView};
use vstd::prelude::*;
use vstd::utf8::{decode_utf8, valid_utf8};

verus! {

/// How the translation of one file stands, without the documents.
#[derive(Debug, Clone, Copy, PartialEq, Eq, Structural)]
pub enum TranslationStatus {
    Missing,
    NeverMarked,
    Outdated,
    UptoDate,
}

impl TranslationStatus {
    /// The name of the status.
    pub open spec fn name(self) -> Seq<char> {
        match self {
            TranslationStatus::Missing => "Missing"@,
            TranslationStatus::NeverMarked => "NeverMarked"@,
            TranslationStatus::Outdated => "Outdated"@,
            TranslationStatus::UptoDate => "UptoDate"@,
        }
    }

    /// The name of the status.
    pub fn as_str(&self) -> (r: &'static str)
        ensures
            r@ == self.name(),
    {
        match self {
            TranslationStatus::Missing => "Missing",
            TranslationStatus::NeverMarked => "NeverMarked",
            TranslationStatus::Outdated => "Outdated",
            TranslationStatus::UptoDate => "UptoDate",
        }
    }
}

/// How the translation of one file stands against the original.
#[derive(Debug)]
pub enum TranslatedDocument {
    /// The original exists and no translation of it does.
    Missing { original: File },
    /// A translation exists that was never marked as in line with any
    /// version of the original.
    NeverMarked { original: File, translated: File },
    /// The original has moved on since the translation was last marked.
    Outdated {
        original: File,
        translated: File,
        last_marked_on: u128,
        original_latest: u128,
        translated_latest: u128,
    },
    /// The translation is in line with the latest original.
    UptoDate { translated: File },
}

/// A `TranslatedDocument`, as the contracts speak of it.
pub enum TranslatedDocumentView {
    Missing { original: FileView },
    NeverMarked { original: FileView, translated: FileView },
    Outdated {
        original: FileView,
        translated: FileView,
        last_marked_on: u128,
        original_latest: u128,
        translated_latest: u128,
    },
    UptoDate { translated: FileView },
}

impl View for TranslatedDocument {
    type V = TranslatedDocumentView;

    open spec fn view(&self) -> TranslatedDocumentView {
        match self {
            TranslatedDocument::Missing { original } => TranslatedDocumentView::Missing {
                original: original@,
            },
            TranslatedDocument::NeverMarked {
                original,
                translated,
            } => TranslatedDocumentView::NeverMarked {
                original: original@,
                translated: translated@,
            },
            TranslatedDocument::Outdated {
                original,
                translated,
                last_marked_on,
                original_latest,
                translated_latest,
            } => TranslatedDocumentView::Outdated {
                original: original@,
                translated: translated@,
                last_marked_on: *last_marked_on,
                original_latest: *original_latest,
                translated_latest: *translated_latest,
            },
            TranslatedDocument::UptoDate { translated } => TranslatedDocumentView::UptoDate {
                translated: translated@,
            },
        }
    }
}

impl DeepView for TranslatedDocument {
    type V = TranslatedDocumentView;

    open spec fn deep_view(&self) -> TranslatedDocumentView {
        self@
    }
}

/// The original document that stands for `file`: the one of that name, or,
/// for `README.md` alone, the one named `index.md` where there is no `README.md`.
pub open spec fn resolve_original(originals: Map<Seq<char>, FileView>, file: Seq<char>) -> Option<
    FileView,
> {
    if originals.contains_key(file) {
        Some(originals[file])
    } else if file == "README.md"@ && originals.contains_key("index.md"@) {
        Some(originals["index.md"@])
    } else {
        None
    }
}

/// The record that the track file of `file` holds for `file` itself.
pub open spec fn track_record(
    tracks: Map<Seq<char>, Map<Seq<char>, TrackView>>,
    file: Seq<char>,
) -> Option<TrackView> {
    if tracks.contains_key(file) && tracks[file].contains_key(file) {
        Some(tracks[file][file])
    } else {
        None
    }
}

/// The status of one file, from the latest version of the original, the
/// original document, the translated document if there is one, and the
/// file's track record if there is one.
pub open spec fn classify(
    original_latest: u128,
    original: FileView,
    translated: Option<FileView>,
    track: Option<TrackView>,
) -> TranslatedDocumentView {
    match translated {
        None => TranslatedDocumentView::Missing { original },
        Some(t) => match track {
            Some(record) => match record.last_merged_version {
                Some(merged) => if merged < original_latest {
                    TranslatedDocumentView::Outdated {
                        original,
                        translated: t,
                        last_marked_on: merged,
                        original_latest,
                        translated_latest: record.self_timestamp,
                    }
                } else {
                    TranslatedDocumentView::UptoDate { translated: t }
                },
                None => TranslatedDocumentView::NeverMarked { original, translated: t },
            },
            None => TranslatedDocumentView::NeverMarked { original, translated: t },
        },
    }
}

/// The status of `file`, a file of the original package whose original
/// document can be resolved.
pub open spec fn status_of(
    snapshots: Map<Seq<char>, u128>,
    originals: Map<Seq<char>, FileView>,
    translated: Map<Seq<char>, FileView>,
    tracks: Map<Seq<char>, Map<Seq<char>, TrackView>>,
    file: Seq<char>,
) -> TranslatedDocumentView {
    classify(
        snapshots[file],
        resolve_original(originals, file)->Some_0,
        if translated.contains_key(file) {
            Some(translated[file])
        } else {
            None
        },
        track_record(tracks, file),
    )
}

/// The translation status of a package: one status for each file in the
/// latest snapshots of the original.
pub open spec fn translation_status(
    snapshots: Map<Seq<char>, u128>,
    originals: Map<Seq<char>, FileView>,
    translated: Map<Seq<char>, FileView>,
    tracks: Map<Seq<char>, Map<Seq<char>, TrackView>>,
) -> Map<Seq<char>, TranslatedDocumentView> {
    Map::new(
        |file: Seq<char>| snapshots.contains_key(file),
        |file: Seq<char>| status_of(snapshots, originals, translated, tracks, file),
    )
}

/// What is reported of a file whose original document cannot be resolved.
pub open spec fn could_not_find(file: Seq<char>) -> Seq<char> {
    "Could not find `"@ + file + "`"@
}

impl TranslatedDocument {
    /// Computes the translation status of a package.
    ///
    /// `original_snapshots` are the latest snapshots of the original package,
    /// `original_documents` and `translated_documents` the documents of the
    /// two packages by name, and `tracks` holds, for each document of the
    /// translation that has a track file, the records of that file.
    ///
    /// The result has one status for each file of `original_snapshots`. It
    /// fails where the original document of a file cannot be resolved, and
    /// then names the first such file in file-name order.
    pub fn get_translated_document(
        original_snapshots: &FileMap<u128>,
        original_documents: &FileMap<File>,
        translated_documents: &FileMap<File>,
        tracks: &FileMap<FileMap<Track>>,
    ) -> (r: Result<FileMap<TranslatedDocument>, Error>)
        requires
            original_snapshots.wf(),
            original_documents.wf(),
            translated_documents.wf(),
            tracks_wf(*tracks),
        ensures
            match r {
                Ok(status) => {
                    &&& status.wf()
                    &&& forall|f: Seq<char>|
                        original_snapshots@.contains_key(f) ==> resolve_original(
                            original_documents.deep_view(),
                            f,
                        ) is Some
                    &&& status.deep_view() == translation_status(
                        original_snapshots@,
                        original_documents.deep_view(),
                        translated_documents.deep_view(),
                        tracks.deep_view(),
                    )
                },
                Err(e) => reports_first_unresolved(
                    original_snapshots.names(),
                    original_documents.deep_view(),
                    e@,
                ),
            },
    {
        let ghost s = original_snapshots@;
        let ghost o = original_documents.deep_view();
        let ghost t = translated_documents.deep_view();
        let ghost k = tracks.deep_view();
        let ghost names = original_snapshots.names();
        let mut status: FileMap<TranslatedDocument> = FileMap::new();
        let mut i: usize = 0;
        while i < original_snapshots.len()
            invariant
                original_snapshots.wf(),
                original_documents.wf(),
                translated_documents.wf(),
                tracks.wf(),
                forall|f: Seq<char>| tracks@.contains_key(f) ==> (#[trigger] tracks@[f]).wf(),
                s == original_snapshots@,
                o == original_documents.deep_view(),
                t == translated_documents.deep_view(),
                k == tracks.deep_view(),
                names == original_snapshots.names(),
                i <= names.len(),
                status.wf(),
                forall|j: int| 0 <= j < i ==> resolve_original(o, #[trigger] names[j]) is Some,
                forall|f: Seq<char>|
                    status@.contains_key(f) <==> exists|j: int| 0 <= j < i && names[j] == f,
                forall|j: int|
                    0 <= j < i ==> (#[trigger] status@[names[j]])@ == status_of(
                        s,
                        o,
                        t,
                        k,
                        names[j],
                    ),
            decreases names.len() - i,
        {
            let file = original_snapshots.name_at(i);
            let timestamp = *original_snapshots.item_at(i);
            proof {
                reveal_strlit("README.md");
                reveal_strlit("index.md");
            }
            let original_document = match original_documents.get(file.as_str()) {
                Some(d) => d,
                None => {
                    let fallback = if str_equal(file.as_str(), "README.md") {
                        original_documents.get("index.md")
                    } else {
                        None
                    };
                    match fallback {
                        Some(d) => d,
                        None => {
                            let e = Error::PackageError {
                                message: join3("Could not find `", file.as_str(), "`"),
                            };
                            assert(resolve_original(o, names[i as int]) is None);
                            return Err(e);
                        },
                    }
                },
            };
            assert(resolve_original(o, file@) == Some(original_document@));
            let entry = match translated_documents.get(file.as_str()) {
                None => TranslatedDocument::Missing { original: original_document.clone() },
                Some(translated_document) => {
                    let record = match tracks.get(file.as_str()) {
                        Some(of_file) => of_file.get(file.as_str()),
                        None => None,
                    };
                    assert(record.deep_view() == track_record(k, file@));
                    let merged = match record {
                        Some(track) => match track.last_merged_version {
                            Some(v) => Some((v, track.self_timestamp)),
                            None => None,
                        },
                        None => None,
                    };
                    match merged {
                        Some((last_merged_version, self_timestamp)) => {
                            if last_merged_version < timestamp {
                                TranslatedDocument::Outdated {
                                    original: original_document.clone(),
                                    translated: translated_document.clone(),
                                    last_marked_on: last_merged_version,
                                    original_latest: timestamp,
                                    translated_latest: self_timestamp,
                                }
                            } else {
                                TranslatedDocument::UptoDate {
                                    translated: translated_document.clone(),
                                }
                            }
                        },
                        None => TranslatedDocument::NeverMarked {
                            original: original_document.clone(),
                            translated: translated_document.clone(),
                        },
                    }
                },
            };
            assert(entry@ == status_of(s, o, t, k, file@));
            let ghost before = status@;
            status.insert(file.clone(), entry);
            proof {
                assert forall|f: Seq<char>| status@.contains_key(f) <==> exists|j: int|
                    0 <= j < i + 1 && names[j] == f by {
                    if before.contains_key(f) {
                        let j = choose|j: int| 0 <= j < i && names[j] == f;
                        assert(0 <= j < i + 1 && names[j] == f);
                    }
                    if f == file@ {
                        assert(names[i as int] == f);
                    }
                    if exists|j: int| 0 <= j < i + 1 && names[j] == f {
                        let j = choose|j: int| 0 <= j < i + 1 && names[j] == f;
                        if j < i {
                            assert(before.contains_key(f));
                        }
                    }
                }
                assert forall|j: int| 0 <= j < i + 1 implies (#[trigger] status@[names[j]])@
                    == status_of(s, o, t, k, names[j]) by {
                    if j < i {
                        if names[j] == names[i as int] {
                            lemma_sorted_distinct(names, j, i as int);
                        }
                        assert(status@[names[j]] == before[names[j]]);
                    }
                }
            }
            i += 1;
        }
        proof {
            let expected = translation_status(s, o, t, k);
            assert forall|f: Seq<char>| s.contains_key(f) implies resolve_original(o, f)
                is Some && status@.contains_key(f) && status@[f]@ == expected[f] by {
                original_snapshots.lemma_key_is_walked(f);
                let j = choose|j: int| 0 <= j < names.len() && names[j] == f;
                assert(status@[names[j]]@ == status_of(s, o, t, k, names[j]));
            }
            assert forall|f: Seq<char>| status@.contains_key(f) implies s.contains_key(f) by {
                let j = choose|j: int| 0 <= j < i && names[j] == f;
                original_snapshots.lemma_walk(j);
            }
            assert(status.deep_view() =~= expected);
        }
        Ok(status)
    }

    /// What is to be rendered for this document: the main file, the file to
    /// fall back to, and the data on the translation.
    ///
    /// For an outdated translation the data hold the diff of the original
    /// between the version the translation was last marked on and the latest
    /// one. Both versions are read from `original_store`, the snapshot store
    /// of the original package: it fails with `NotFound` where one of them
    /// was never archived (the earlier version is looked for first), and with
    /// `PackageError` where one of them is not text.
    pub fn html(&self, original_store: &SnapshotStore) -> (r: Result<Rendering, Error>)
        requires
            original_store.wf(),
        ensures
            match r {
                Ok(rendering) => Ok::<RenderingView, ErrorView>(rendering@),
                Err(e) => Err(e@),
            } == rendering_of(self@, original_store.archive()),
    {
        match self {
            TranslatedDocument::Missing { original } => Ok(
                Rendering {
                    main: original.clone(),
                    fallback: None,
                    translated_data: TranslationData::default(),
                },
            ),
            TranslatedDocument::NeverMarked { original, translated } => Ok(
                Rendering {
                    main: original.clone(),
                    fallback: Some(translated.clone()),
                    translated_data: TranslationData::default(),
                },
            ),
            TranslatedDocument::Outdated {
                original,
                translated,
                last_marked_on,
                original_latest,
                translated_latest,
            } => {
                let id = original.get_id();
                let earlier = match read_text(original_store, id.as_str(), *last_marked_on) {
                    Ok(text) => text,
                    Err(e) => {
                        return Err(e);
                    },
                };
                let latest = match read_text(original_store, id.as_str(), *original_latest) {
                    Ok(text) => text,
                    Err(e) => {
                        return Err(e);
                    },
                };
                let diff = get_diff(earlier.as_str(), latest.as_str());
                Ok(
                    Rendering {
                        main: translated.clone(),
                        fallback: Some(original.clone()),
                        translated_data: TranslationData {
                            diff: Some(diff),
                            status: None,
                            last_marked_on: Some(*last_marked_on),
                            original_latest: Some(*original_latest),
                            translated_latest: Some(*translated_latest),
                        },
                    },
                )
            },
            TranslatedDocument::UptoDate { translated } => Ok(
                Rendering {
                    main: translated.clone(),
                    fallback: None,
                    translated_data: TranslationData::default(),
                },
            ),
        }
    }
}

/// What a rendered page shows of the state of a translation.
#[derive(Debug)]
pub struct TranslationData {
    pub diff: Option<String>,
    pub status: Option<String>,
    pub last_marked_on: Option<u128>,
    pub original_latest: Option<u128>,
    pub translated_latest: Option<u128>,
}

/// A `TranslationData`, as the contracts speak of it.
pub struct TranslationDataView {
    pub diff: Option<Seq<char>>,
    pub status: Option<Seq<char>>,
    pub last_marked_on: Option<u128>,
    pub original_latest: Option<u128>,
    pub translated_latest: Option<u128>,
}

impl View for TranslationData {
    type V = TranslationDataView;

    open spec fn view(&self) -> TranslationDataView {
        TranslationDataView {
            diff: self.diff.deep_view(),
            status: self.status.deep_view(),
            last_marked_on: self.last_marked_on,
            original_latest: self.original_latest,
            translated_latest: self.translated_latest,
        }
    }
}

/// The data of a page that has nothing to say of a translation.
pub open spec fn no_translation_data() -> TranslationDataView {
    TranslationDataView {
        diff: None,
        status: None,
        last_marked_on: None,
        original_latest: None,
        translated_latest: None,
    }
}

impl Default for TranslationData {
    fn default() -> (r: Self)
        ensures
            r@ == no_translation_data(),
    {
        TranslationData {
            diff: None,
            status: None,
            last_marked_on: None,
            original_latest: None,
            translated_latest: None,
        }
    }
}

/// What is rendered for one document of a translated package.
#[derive(Debug)]
pub struct Rendering {
    pub main: File,
    pub fallback: Option<File>,
    pub translated_data: TranslationData,
}

/// A `Rendering`, as the contracts speak of it.
pub struct RenderingView {
    pub main: FileView,
    pub fallback: Option<FileView>,
    pub translated_data: TranslationDataView,
}

impl View for Rendering {
    type V = RenderingView;

    open spec fn view(&self) -> RenderingView {
        RenderingView {
            main: self.main@,
            fallback: self.fallback.deep_view(),
            translated_data: self.translated_data@,
        }
    }
}

/// What is reported of an archived version that is not valid UTF-8.
pub open spec fn not_text(file: Seq<char>) -> Seq<char> {
    "`"@ + file + "` is not text"@
}

/// The text that the archive holds for `file` at `version`.
pub open spec fn archived_text(
    archive: Map<(Seq<char>, u128), Seq<u8>>,
    file: Seq<char>,
    version: u128,
) -> Result<Seq<char>, ErrorView> {
    if !archive.contains_key((file, version)) {
        Err(ErrorView::NotFound { path: file, version: Some(version) })
    } else if !valid_utf8(archive[(file, version)]) {
        Err(ErrorView::PackageError { message: not_text(file) })
    } else {
        Ok(decode_utf8(archive[(file, version)]))
    }
}

/// What is rendered for a document, given the archive of the original package.
pub open spec fn rendering_of(
    doc: TranslatedDocumentView,
    archive: Map<(Seq<char>, u128), Seq<u8>>,
) -> Result<RenderingView, ErrorView> {
    match doc {
        TranslatedDocumentView::Missing { original } => Ok(
            RenderingView {
                main: original,
                fallback: None,
                translated_data: no_translation_data(),
            },
        ),
        TranslatedDocumentView::NeverMarked { original, translated } => Ok(
            RenderingView {
                main: original,
                fallback: Some(translated),
                translated_data: no_translation_data(),
            },
        ),
        TranslatedDocumentView::Outdated {
            original,
            translated,
            last_marked_on,
            original_latest,
            translated_latest,
        } => match archived_text(archive, original.id(), last_marked_on) {
            Err(e) => Err(e),
            Ok(earlier) => match archived_text(archive, original.id(), original_latest) {
                Err(e) => Err(e),
                Ok(latest) => Ok(
                    RenderingView {
                        main: translated,
                        fallback: Some(original),
                        translated_data: TranslationDataView {
                            diff: Some(escaped(patch_text(earlier, latest))),
                            status: None,
                            last_marked_on: Some(last_marked_on),
                            original_latest: Some(original_latest),
                            translated_latest: Some(translated_latest),
                        },
                    },
                ),
            },
        },
        TranslatedDocumentView::UptoDate { translated } => Ok(
            RenderingView {
                main: translated,
                fallback: None,
                translated_data: no_translation_data(),
            },
        ),
    }
}

/// Reads `file` at `version` from the archive of `store`, as text.
pub fn read_text(store: &SnapshotStore, file: &str, version: u128) -> (r: Result<String, Error>)
    requires
        store.wf(),
    ensures
        match r {
            Ok(text) => Ok::<Seq<char>, ErrorView>(text@),
            Err(e) => Err(e@),
        } == archived_text(store.archive(), file@, version),
{
    match store.read_at(file, version) {
        Err(e) => Err(e),
        Ok(bytes) => match text_of(bytes) {
            Some(text) => Ok(text),
            None => Err(Error::PackageError { message: join3("`", file, "` is not text") }),
        },
    }
}

/// Whether the error `e` names the first file of `names` whose original
/// document cannot be resolved.
pub open spec fn reports_first_unresolved(
    names: Seq<Seq<char>>,
    originals: Map<Seq<char>, FileView>,
    e: ErrorView,
) -> bool {
    exists|i: int|
        {
            &&& 0 <= i < names.len()
            &&& resolve_original(originals, #[trigger] names[i]) is None
            &&& forall|j: int|
                0 <= j < i ==> resolve_original(originals, #[trigger] names[j]) is Some
            &&& e == (ErrorView::PackageError { message: could_not_find(names[i]) })
        }
}

/// The status is a function of its inputs. Two computations on the same
/// snapshots, documents and tracks that both fail report the same file; two
/// that both succeed give the same status, `translation_status` of the inputs.
pub proof fn lemma_status_is_deterministic(
    names: Seq<Seq<char>>,
    originals: Map<Seq<char>, FileView>,
    e1: ErrorView,
    e2: ErrorView,
)
    requires
        reports_first_unresolved(names, originals, e1),
        reports_first_unresolved(names, originals, e2),
    ensures
        e1 == e2,
{
    let i1 = choose|i: int|
        {
            &&& 0 <= i < names.len()
            &&& resolve_original(originals, #[trigger] names[i]) is None
            &&& forall|j: int|
                0 <= j < i ==> resolve_original(originals, #[trigger] names[j]) is Some
            &&& e1 == (ErrorView::PackageError { message: could_not_find(names[i]) })
        };
    let i2 = choose|i: int|
        {
            &&& 0 <= i < names.len()
            &&& resolve_original(originals, #[trigger] names[i]) is None
            &&& forall|j: int|
                0 <= j < i ==> resolve_original(originals, #[trigger] names[j]) is Some
            &&& e2 == (ErrorView::PackageError { message: could_not_find(names[i]) })
        };
    if i1 < i2 {
        assert(resolve_original(originals, names[i1]) is Some);
    }
    if i2 < i1 {
        assert(resolve_original(originals, names[i2]) is Some);
    }
}

/// Exhaustive classification. The status has an entry for each file of the
/// snapshots of the original and for no other file, and the entry of a file
/// is of exactly one kind, which the translated documents and the track
/// record of the file decide: missing without a translation; never marked
/// with a translation that has no track record, or one without a merged
/// version; outdated where the merged version is below the latest version of
/// the original; up to date where it is not.
pub proof fn lemma_classification_is_exhaustive(
    snapshots: Map<Seq<char>, u128>,
    originals: Map<Seq<char>, FileView>,
    translated: Map<Seq<char>, FileView>,
    tracks: Map<Seq<char>, Map<Seq<char>, TrackView>>,
    file: Seq<char>,
)
    ensures
        translation_status(snapshots, originals, translated, tracks).contains_key(file)
            <==> snapshots.contains_key(file),
        snapshots.contains_key(file) ==> ({
            let status = translation_status(snapshots, originals, translated, tracks)[file];
            let record = track_record(tracks, file);
            let merged = record is Some && record->Some_0.last_merged_version is Some;
            &&& status is Missing <==> !translated.contains_key(file)
            &&& status is NeverMarked <==> translated.contains_key(file) && !merged
            &&& status is Outdated <==> translated.contains_key(file) && merged
                && record->Some_0.last_merged_version->Some_0 < snapshots[file]
            &&& status is UptoDate <==> translated.contains_key(file) && merged
                && record->Some_0.last_merged_version->Some_0 >= snapshots[file]
            &&& status is Outdated ==> status->last_marked_on
                == record->Some_0.last_merged_version->Some_0 && status->original_latest
                == snapshots[file] && status->translated_latest == record->Some_0.self_timestamp
        }),
{
}

impl TranslatedDocumentView {
    /// The status, without the documents.
    pub open spec fn status(self) -> TranslationStatus {
        match self {
            TranslatedDocumentView::Missing { .. } => TranslationStatus::Missing,
            TranslatedDocumentView::NeverMarked { .. } => TranslationStatus::NeverMarked,
            TranslatedDocumentView::Outdated { .. } => TranslationStatus::Outdated,
            TranslatedDocumentView::UptoDate { .. } => TranslationStatus::UptoDate,
        }
    }
}

impl TranslatedDocument {
    /// The status, without the documents.
    pub fn status(&self) -> (r: TranslationStatus)
        ensures
            r == self@.status(),
    {
        match self {
            TranslatedDocument::Missing { .. } => TranslationStatus::Missing,
            TranslatedDocument::NeverMarked { .. } => TranslationStatus::NeverMarked,
            TranslatedDocument::Outdated { .. } => TranslationStatus::Outdated,
            TranslatedDocument::UptoDate { .. } => TranslationStatus::UptoDate,
        }
    }
}

/// The status of one file, from the latest version of the original, whether
/// there is a translation, and the track record of the file.
pub open spec fn kind_of(original_latest: u128, translated: bool, track: Option<TrackView>) -> TranslationStatus {
    if !translated {
        TranslationStatus::Missing
    } else {
        match track {
            Some(record) => match record.last_merged_version {
                Some(merged) => if merged < original_latest {
                    TranslationStatus::Outdated
                } else {
                    TranslationStatus::UptoDate
                },
                None => TranslationStatus::NeverMarked,
            },
            None => TranslationStatus::NeverMarked,
        }
    }
}

/// The status of every file in the latest snapshots of the original,
/// without the documents.
pub open spec fn translation_kinds(
    snapshots: Map<Seq<char>, u128>,
    translated: Set<Seq<char>>,
    tracks: Map<Seq<char>, Map<Seq<char>, TrackView>>,
) -> Map<Seq<char>, TranslationStatus> {
    Map::new(
        |file: Seq<char>| snapshots.contains_key(file),
        |file: Seq<char>|
            kind_of(snapshots[file], translated.contains(file), track_record(tracks, file)),
    )
}

/// Computes the status of every file of the original, without the
/// documents: `translated` holds an entry for each file that the translation
/// has, and `tracks` the records of each track file of the translation.
pub fn get_translation_status<V>(
    original_snapshots: &FileMap<u128>,
    translated: &FileMap<V>,
    tracks: &FileMap<FileMap<Track>>,
) -> (status: FileMap<TranslationStatus>)
    requires
        original_snapshots.wf(),
        translated.wf(),
        tracks_wf(*tracks),
    ensures
        status.wf(),
        status@ == translation_kinds(original_snapshots@, translated@.dom(), tracks.deep_view()),
{
    let ghost s = original_snapshots@;
    let ghost t = translated@.dom();
    let ghost k = tracks.deep_view();
    let ghost names = original_snapshots.names();
    let mut status: FileMap<TranslationStatus> = FileMap::new();
    let mut i: usize = 0;
    assert(status@ =~= translation_kinds(s, t, k).restrict(crate::file_map::walked(names, 0)));
    while i < original_snapshots.len()
        invariant
            original_snapshots.wf(),
            translated.wf(),
            tracks.wf(),
            forall|f: Seq<char>| tracks@.contains_key(f) ==> (#[trigger] tracks@[f]).wf(),
            s == original_snapshots@,
            t == translated@.dom(),
            k == tracks.deep_view(),
            names == original_snapshots.names(),
            i <= names.len(),
            status.wf(),
            status@ == translation_kinds(s, t, k).restrict(crate::file_map::walked(names, i as int)),
        decreases names.len() - i,
    {
        let file = original_snapshots.name_at(i);
        let timestamp = *original_snapshots.item_at(i);
        let kind = if !translated.contains_key(file.as_str()) {
            TranslationStatus::Missing
        } else {
            let record = match tracks.get(file.as_str()) {
                Some(of_file) => of_file.get(file.as_str()),
                None => None,
            };
            assert(record.deep_view() == track_record(k, file@));
            match record {
                Some(track) => match track.last_merged_version {
                    Some(merged) => if merged < timestamp {
                        TranslationStatus::Outdated
                    } else {
                        TranslationStatus::UptoDate
                    },
                    None => TranslationStatus::NeverMarked,
                },
                None => TranslationStatus::NeverMarked,
            }
        };
        proof {
            crate::file_map::lemma_walked_step(names, i as int);
        }
        status.insert(file.clone(), kind);
        assert(status@ =~= translation_kinds(s, t, k).restrict(
            crate::file_map::walked(names, i + 1),
        ));
        i += 1;
    }
    proof {
        assert(translation_kinds(s, t, k).restrict(crate::file_map::walked(names, i as int))
            =~= translation_kinds(s, t, k)) by {
            assert forall|f: Seq<char>| s.contains_key(f) implies crate::file_map::walked(
                names,
                i as int,
            ).contains(f) by {
                original_snapshots.lemma_key_is_walked(f);
                let j = choose|j: int| 0 <= j < names.len() && names[j] == f;
                assert(0 <= j < i && names[j] == f);
            }
        }
    }
    status
}

/// The two computations agree: the status of a file with its documents is
/// of the kind that the computation without documents gives.
pub proof fn lemma_kinds_agree(
    snapshots: Map<Seq<char>, u128>,
    originals: Map<Seq<char>, FileView>,
    translated: Map<Seq<char>, FileView>,
    tracks: Map<Seq<char>, Map<Seq<char>, TrackView>>,
    file: Seq<char>,
)
    requires
        snapshots.contains_key(file),
    ensures
        translation_status(snapshots, originals, translated, tracks)[file].status()
            == translation_kinds(snapshots, translated.dom(), tracks)[file],
{
}

} // verus!
