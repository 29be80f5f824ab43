//! The snapshot store: the latest version of every file, and the archive of
//! what each file held at each version it was committed at.

use crate::error::{Error, ErrorView};
use crate::file_map::{walked, FileMap};
use crate::text::{join3, path_lt, str_equal};
use vstd::prelude::*;

verus! {

/// What one file held at one version.
#[derive(Debug)]
pub struct Revision {
    pub filename: String,
    pub version: u128,
    pub content: Vec<u8>,
}

/// The snapshot store of one package.
#[derive(Debug)]
pub struct SnapshotStore {
    latest: FileMap<u128>,
    history: Vec<Revision>,
}

/// The change that a commit makes to one file: its new content, or `None`
/// where the file is deleted.
pub type Change = Option<Vec<u8>>;

/// The changes of a commit, each file with its new content.
pub type Changes = Map<Seq<char>, Option<Seq<u8>>>;

/// The latest snapshots after a commit at version `v`: a changed file is at
/// `v`, a deleted file is gone, every other file is where it was.
pub open spec fn latest_after(
    latest: Map<Seq<char>, u128>,
    changes: Changes,
    v: u128,
) -> Map<Seq<char>, u128> {
    Map::new(
        |f: Seq<char>|
            if changes.contains_key(f) {
                changes[f] is Some
            } else {
                latest.contains_key(f)
            },
        |f: Seq<char>|
            if changes.contains_key(f) {
                v
            } else {
                latest[f]
            },
    )
}

/// The archive after a commit at version `v`: the content of every changed
/// file is added under `v`, and nothing else is touched.
pub open spec fn archive_after(
    archive: Map<(Seq<char>, u128), Seq<u8>>,
    changes: Changes,
    v: u128,
) -> Map<(Seq<char>, u128), Seq<u8>> {
    Map::new(
        |k: (Seq<char>, u128)|
            archive.contains_key(k) || (k.1 == v && changes.contains_key(k.0) && changes[k.0] is Some),
        |k: (Seq<char>, u128)|
            if archive.contains_key(k) {
                archive[k]
            } else {
                changes[k.0]->Some_0
            },
    )
}

impl SnapshotStore {
    /// The latest version of each file.
    pub closed spec fn latest(&self) -> Map<Seq<char>, u128> {
        self.latest@
    }

    /// The archive: what each file held at each version that was committed.
    pub closed spec fn archive(&self) -> Map<(Seq<char>, u128), Seq<u8>> {
        archive_of(self.history@)
    }

    /// The store is well formed: the archive holds one content for a file
    /// and a version.
    pub closed spec fn wf(&self) -> bool {
        &&& self.latest.wf()
        &&& forall|i: int, j: int|
            0 <= i < j < self.history.len() ==> !(self.history[i].filename@
                == self.history[j].filename@ && self.history[i].version
                == self.history[j].version)
    }

    /// Whether `v` is above every version that the store knows of `file`: its
    /// latest version and all those in the archive.
    pub open spec fn is_above(&self, file: Seq<char>, v: u128) -> bool {
        &&& self.latest().contains_key(file) ==> self.latest()[file] < v
        &&& forall|w: u128| self.archive().contains_key((file, w)) ==> w < v
    }

    /// The version that a commit of `files` at time `now` gives them: `now`
    /// itself where it is above every version that the store knows of these
    /// files, else the least version that is.
    pub open spec fn is_commit_version(&self, files: Set<Seq<char>>, now: u128, v: u128) -> bool {
        &&& now <= v
        &&& forall|f: Seq<char>| files.contains(f) ==> self.is_above(f, v)
        &&& v == now || exists|f: Seq<char>|
            files.contains(f) && !self.is_above(f, (v - 1) as u128)
    }

    /// A version is left above every known version of each of `files`.
    pub open spec fn has_room(&self, files: Set<Seq<char>>) -> bool {
        forall|f: Seq<char>| files.contains(f) ==> self.is_above(f, u128::MAX)
    }

    /// Whether `file` is the first of `files`, in file-name order, for which
    /// no version is left.
    pub open spec fn first_without_room(&self, files: Set<Seq<char>>, file: Seq<char>) -> bool {
        &&& files.contains(file)
        &&& !self.is_above(file, u128::MAX)
        &&& forall|g: Seq<char>|
            files.contains(g) && path_lt(g, file) ==> self.is_above(g, u128::MAX)
    }

    /// Whether the error `e` names the first of `files` for which no version
    /// is left.
    pub open spec fn reports_no_room(&self, files: Set<Seq<char>>, e: ErrorView) -> bool {
        exists|file: Seq<char>|
            #[trigger] self.first_without_room(files, file) && e == (ErrorView::PackageError {
                message: no_room_message(file),
            })
    }

    /// A store without files or history.
    pub fn new() -> (store: Self)
        ensures
            store.wf(),
            store.latest() == Map::<Seq<char>, u128>::empty(),
            store.archive() == Map::<(Seq<char>, u128), Seq<u8>>::empty(),
    {
        let store = SnapshotStore { latest: FileMap::new(), history: Vec::new() };
        assert(store.archive() =~= Map::<(Seq<char>, u128), Seq<u8>>::empty());
        store
    }

    /// The store of a package whose manifest gave `latest`, with an empty
    /// archive. `archive` then takes in what the content store holds.
    pub fn open(latest: FileMap<u128>) -> (store: Self)
        requires
            latest.wf(),
        ensures
            store.wf(),
            store.latest() == latest@,
            store.archive() == Map::<(Seq<char>, u128), Seq<u8>>::empty(),
    {
        let store = SnapshotStore { latest, history: Vec::new() };
        assert(store.archive() =~= Map::<(Seq<char>, u128), Seq<u8>>::empty());
        store
    }

    /// The latest version of each file.
    pub fn latest_snapshots(&self) -> (latest: &FileMap<u128>)
        requires
            self.wf(),
        ensures
            latest.wf(),
            latest@ == self.latest(),
    {
        &self.latest
    }

    fn find(&self, filename: &str, version: u128) -> (r: Option<usize>)
        requires
            self.wf(),
        ensures
            match r {
                Some(i) => held_at(self.history@, i as int, (filename@, version)),
                None => !self.archive().contains_key((filename@, version)),
            },
    {
        let mut i: usize = 0;
        while i < self.history.len()
            invariant
                i <= self.history.len(),
                forall|j: int| 0 <= j < i ==> !held_at(self.history@, j, (filename@, version)),
            decreases self.history.len() - i,
        {
            if self.history[i].version == version && str_equal(
                self.history[i].filename.as_str(),
                filename,
            ) {
                return Some(i);
            }
            i += 1;
        }
        None
    }

    proof fn lemma_archive_at(&self, i: int)
        requires
            self.wf(),
            0 <= i < self.history.len(),
        ensures
            self.archive().contains_key((self.history[i].filename@, self.history[i].version)),
            self.archive()[(self.history[i].filename@, self.history[i].version)]
                == self.history[i].content@,
    {
        let k = (self.history[i].filename@, self.history[i].version);
        assert(held_at(self.history@, i, k));
        let j = choose|j: int| held_at(self.history@, j, k);
        assert(i == j);
    }

    /// What `filename` held at `version`.
    pub fn read_at(&self, filename: &str, version: u128) -> (r: Result<&Vec<u8>, Error>)
        requires
            self.wf(),
        ensures
            match r {
                Ok(content) => self.archive().contains_key((filename@, version)) && content@
                    == self.archive()[(filename@, version)],
                Err(e) => !self.archive().contains_key((filename@, version)) && e@ == (
                ErrorView::NotFound { path: filename@, version: Some(version) }),
            },
    {
        match self.find(filename, version) {
            Some(i) => {
                proof {
                    self.lemma_archive_at(i as int);
                }
                Ok(&self.history[i].content)
            },
            None => Err(Error::NotFound { path: filename.to_owned(), version: Some(version) }),
        }
    }

    /// Takes `content` into the archive as what `filename` held at `version`,
    /// unless the archive has that version of the file already: what is
    /// archived is never overwritten. Tells whether the content was taken in.
    pub fn archive_blob(&mut self, filename: String, version: u128, content: Vec<u8>) -> (added:
        bool)
        requires
            old(self).wf(),
        ensures
            final(self).wf(),
            final(self).latest() == old(self).latest(),
            added == !old(self).archive().contains_key((filename@, version)),
            final(self).archive() == if added {
                old(self).archive().insert((filename@, version), content@)
            } else {
                old(self).archive()
            },
    {
        if self.find(filename.as_str(), version).is_some() {
            return false;
        }
        let ghost before = *self;
        let ghost k = (filename@, version);
        self.history.push(Revision { filename, version, content });
        proof {
            let n = before.history.len() as int;
            assert forall|i: int, q: (Seq<char>, u128)| held_at(self.history@, i, q) <==> (held_at(before.history@, i,
                q,
            ) || (i == n && q == k)) by {
                if 0 <= i < n {
                    assert(self.history[i] == before.history[i]);
                }
            }
            assert forall|i: int, j: int| 0 <= i < j < self.history.len() implies !(
            self.history[i].filename@ == self.history[j].filename@ && self.history[i].version
                == self.history[j].version) by {
                if j == n {
                    assert(self.history[i] == before.history[i]);
                    if self.history[i].filename@ == k.0 && self.history[i].version == k.1 {
                        assert(held_at(before.history@, i, k));
                    }
                } else {
                    assert(self.history[i] == before.history[i]);
                    assert(self.history[j] == before.history[j]);
                }
            }
            let m1 = self.archive();
            let m2 = before.archive().insert(k, content@);
            assert forall|q: (Seq<char>, u128)| m1.contains_key(q) <==> m2.contains_key(q) by {
                if m1.contains_key(q) {
                    let i = choose|i: int| held_at(self.history@, i, q);
                    assert(held_at(before.history@, i, q) || q == k);
                }
                if before.archive().contains_key(q) {
                    let i = choose|i: int| held_at(before.history@, i, q);
                    assert(held_at(self.history@, i, q));
                }
                if q == k {
                    assert(held_at(self.history@, n, q));
                }
            }
            assert forall|q: (Seq<char>, u128)| m1.contains_key(q) implies m1[q] == m2[q] by {
                let i = choose|i: int| held_at(self.history@, i, q);
                self.lemma_archive_at(i);
                if i < n {
                    assert(held_at(before.history@, i, q));
                    before.lemma_archive_at(i);
                }
            }
            assert(m1 =~= m2);
        }
        true
    }

    /// Makes `version` the latest version of `filename`, with `content` as
    /// what the file holds at it, unless the archive has that version of
    /// the file already.
    pub fn adopt(&mut self, filename: &str, version: u128, content: Vec<u8>)
        requires
            old(self).wf(),
        ensures
            final(self).wf(),
            final(self).latest() == old(self).latest().insert(filename@, version),
            final(self).archive() == if old(self).archive().contains_key((filename@, version)) {
                old(self).archive()
            } else {
                old(self).archive().insert((filename@, version), content@)
            },
    {
        self.latest.insert(filename.to_owned(), version);
        let _ = self.archive_blob(filename.to_owned(), version, content);
    }

    /// Takes `filename` out of the latest snapshots. The archive keeps what
    /// it has of the file.
    pub fn forget(&mut self, filename: &str)
        requires
            old(self).wf(),
        ensures
            final(self).wf(),
            final(self).latest() == old(self).latest().remove(filename@),
            final(self).archive() == old(self).archive(),
    {
        self.latest.remove(filename);
    }

    /// The highest version that the store knows of `filename`, if it knows any.
    pub fn highest_known(&self, filename: &str) -> (r: Option<u128>)
        requires
            self.wf(),
        ensures
            match r {
                Some(m) => forall|v: u128| self.is_above(filename@, v) <==> m < v,
                None => forall|v: u128| self.is_above(filename@, v),
            },
    {
        let mut best: Option<u128> = match self.latest.get(filename) {
            Some(v) => Some(*v),
            None => None,
        };
        let mut i: usize = 0;
        while i < self.history.len()
            invariant
                self.wf(),
                i <= self.history.len(),
                match best {
                    Some(m) => {
                        &&& self.latest().contains_key(filename@) ==> self.latest()[filename@] <= m
                        &&& forall|j: int|
                            0 <= j < i && self.history[j].filename@ == filename@
                                ==> self.history[j].version <= m
                        &&& (self.latest().contains_key(filename@) && self.latest()[filename@] == m)
                            || exists|j: int| 0 <= j < i && held_at(self.history@, j, (filename@, m))
                    },
                    None => {
                        &&& !self.latest().contains_key(filename@)
                        &&& forall|j: int| 0 <= j < i ==> self.history[j].filename@ != filename@
                    },
                },
            decreases self.history.len() - i,
        {
            if str_equal(self.history[i].filename.as_str(), filename) {
                let v = self.history[i].version;
                let higher = match best {
                    Some(m) => m < v,
                    None => true,
                };
                if higher {
                    assert(held_at(self.history@, i as int, (filename@, v)));
                    best = Some(v);
                }
            }
            i += 1;
        }
        proof {
            match best {
                Some(m) => {
                    assert forall|v: u128| self.is_above(filename@, v) <==> m < v by {
                        if m < v {
                            assert forall|w: u128|
                                self.archive().contains_key((filename@, w)) implies w < v by {
                                let j = choose|j: int| held_at(self.history@, j, (filename@, w));
                                assert(self.history[j].version <= m);
                            }
                        }
                        if self.is_above(filename@, v) {
                            if !(self.latest().contains_key(filename@) && self.latest()[filename@]
                                == m) {
                                let j = choose|j: int|
                                    0 <= j < i && held_at(self.history@, j, (filename@, m));
                                self.lemma_archive_at(j);
                            }
                        }
                    }
                },
                None => {
                    assert forall|v: u128| self.is_above(filename@, v) by {
                        assert forall|w: u128|
                            self.archive().contains_key((filename@, w)) implies w < v by {
                            let j = choose|j: int| held_at(self.history@, j, (filename@, w));
                            assert(self.history[j].filename@ == filename@);
                        }
                    }
                },
            }
        }
        best
    }

    /// A version that is above all that is known of a file stays so when raised.
    pub proof fn lemma_above_upward(&self, file: Seq<char>, v: u128, w: u128)
        requires
            self.is_above(file, v),
            v <= w,
        ensures
            self.is_above(file, w),
    {
    }

    /// The version that a commit of `changes` at time `now` would give them.
    /// It fails where the store knows one of the files at the highest version
    /// there is, and names the first such file.
    pub fn commit_version(&self, changes: &FileMap<Change>, now: u128) -> (r: Result<u128, Error>)
        requires
            self.wf(),
            changes.wf(),
        ensures
            match r {
                Ok(v) => self.has_room(changes.deep_view().dom()) && self.is_commit_version(
                    changes.deep_view().dom(),
                    now,
                    v,
                ),
                Err(e) => self.reports_no_room(changes.deep_view().dom(), e@),
            },
    {
        let mut v: u128 = now;
        let mut i: usize = 0;
        assert(changes.deep_view().dom() =~= changes@.dom());
        while i < changes.len()
            invariant
                self.wf(),
                changes.wf(),
                i <= changes.names().len(),
                now <= v,
                changes.deep_view().dom() == changes@.dom(),
                forall|j: int| 0 <= j < i ==> self.is_above(#[trigger] changes.names()[j], v),
                forall|j: int|
                    0 <= j < i ==> self.is_above(#[trigger] changes.names()[j], u128::MAX),
                v == now || exists|j: int|
                    0 <= j < i && !self.is_above(#[trigger] changes.names()[j], (v - 1) as u128),
            decreases changes.names().len() - i,
        {
            let name = changes.name_at(i);
            match self.highest_known(name.as_str()) {
                Some(m) => {
                    if m == u128::MAX {
                        let e = Error::PackageError {
                            message: join3(
                                "no version is left above those of `",
                                name.as_str(),
                                "`",
                            ),
                        };
                        proof {
                            let files = changes.deep_view().dom();
                            let file = changes.names()[i as int];
                            changes.lemma_walk(i as int);
                            assert forall|g: Seq<char>|
                                files.contains(g) && path_lt(g, file) implies self.is_above(
                                g,
                                u128::MAX,
                            ) by {
                                changes.lemma_key_is_walked(g);
                                let j = choose|j: int|
                                    0 <= j < changes.names().len() && changes.names()[j] == g;
                                if j >= i {
                                    crate::text::lemma_path_lt_asymmetric(g, file);
                                    if j > i {
                                        assert(path_lt(changes.names()[i as int], changes.names()[j]));
                                    }
                                }
                            }
                            assert(self.first_without_room(files, file));
                        }
                        return Err(e);
                    }
                    if m >= v {
                        proof {
                            assert forall|j: int| 0 <= j < i implies self.is_above(
                                #[trigger] changes.names()[j],
                                (m + 1) as u128,
                            ) by {
                                self.lemma_above_upward(changes.names()[j], v, (m + 1) as u128);
                            }
                        }
                        v = m + 1;
                    }
                },
                None => {},
            }
            i += 1;
        }
        proof {
            assert forall|f: Seq<char>| changes.deep_view().dom().contains(f) implies self.is_above(f, v)
                && self.is_above(f, u128::MAX) by {
                changes.lemma_key_is_walked(f);
            }
            if v != now {
                let j = choose|j: int|
                    0 <= j < i && !self.is_above(#[trigger] changes.names()[j], (v - 1) as u128);
                changes.lemma_walk(j);
            }
        }
        Ok(v)
    }

    /// Commits `changes` at time `now`: every changed file gets one new
    /// version, the same for all, which is the result; that version is `now`,
    /// or the least version above all that the store knows of these files
    /// where `now` is not. The content of each changed file enters the archive
    /// under the new version, and a deleted file leaves the latest snapshots.
    /// Where no version is left for one of the files, nothing changes.
    pub fn commit(&mut self, changes: &FileMap<Change>, now: u128) -> (r: Result<u128, Error>)
        requires
            old(self).wf(),
            changes.wf(),
        ensures
            final(self).wf(),
            match r {
                Ok(v) => {
                    &&& old(self).has_room(changes.deep_view().dom())
                    &&& old(self).is_commit_version(changes.deep_view().dom(), now, v)
                    &&& final(self).latest() == latest_after(old(self).latest(), changes.deep_view(), v)
                    &&& final(self).archive() == archive_after(old(self).archive(), changes.deep_view(), v)
                },
                Err(e) => {
                    &&& !old(self).has_room(changes.deep_view().dom())
                    &&& old(self).reports_no_room(changes.deep_view().dom(), e@)
                    &&& final(self).latest() == old(self).latest()
                    &&& final(self).archive() == old(self).archive()
                },
            },
    {
        let v = match self.commit_version(changes, now) {
            Ok(v) => v,
            Err(e) => {
                return Err(e);
            },
        };
        let ghost before = *self;
        let mut i: usize = 0;
        assert(changes.deep_view().dom() =~= changes@.dom());
        while i < changes.len()
            invariant
                self.wf(),
                changes.wf(),
                before.wf(),
                i <= changes.names().len(),
                forall|f: Seq<char>| changes.deep_view().dom().contains(f) ==> before.is_above(f, v),
                self.latest() == latest_after(
                    before.latest(),
                    changes.deep_view().restrict(walked(changes.names(), i as int)),
                    v,
                ),
                self.archive() == archive_after(
                    before.archive(),
                    changes.deep_view().restrict(walked(changes.names(), i as int)),
                    v,
                ),
            decreases changes.names().len() - i,
        {
            let name = changes.name_at(i);
            let change = changes.item_at(i);
            let ghost done = changes.deep_view().restrict(walked(changes.names(), i as int));
            let ghost next = changes.deep_view().restrict(walked(changes.names(), i + 1));
            let ghost latest0 = self.latest();
            let ghost archive0 = self.archive();
            proof {
                changes.lemma_walk(i as int);
                assert(walked(changes.names(), i + 1).contains(name@));
                assert forall|f: Seq<char>| next.contains_key(f) <==> (done.contains_key(f) || f
                    == name@) by {
                    if walked(changes.names(), i + 1).contains(f) {
                        let j = choose|j: int| 0 <= j < i + 1 && changes.names()[j] == f;
                        if j < i {
                            assert(walked(changes.names(), i as int).contains(f));
                        }
                    }
                    if walked(changes.names(), i as int).contains(f) {
                        let j = choose|j: int| 0 <= j < i && changes.names()[j] == f;
                        assert(0 <= j < i + 1 && changes.names()[j] == f);
                    }
                }
                assert(!done.contains_key(name@)) by {
                    if walked(changes.names(), i as int).contains(name@) {
                        let j = choose|j: int| 0 <= j < i && changes.names()[j] == name@;
                        crate::file_map::lemma_sorted_distinct(changes.names(), j, i as int);
                    }
                }
            }
            match change {
                Some(content) => {
                    let copy = content.clone();
                    assert(copy@ =~= content@);
                    assert(content.deep_view() =~= content@);
                    assert(next[name@] == Some(content@));
                    self.latest.insert(name.clone(), v);
                    let added = self.archive_blob(name.clone(), v, copy);
                    proof {
                        assert(before.is_above(name@, v));
                        assert(!archive0.contains_key((name@, v)));
                        assert(self.archive() =~= archive_after(before.archive(), next, v));
                    }
                },
                None => {
                    self.latest.remove(name.as_str());
                    proof {
                        assert(self.archive() =~= archive_after(before.archive(), next, v));
                    }
                },
            }
            proof {
                assert(self.latest() =~= latest_after(before.latest(), next, v));
            }
            i += 1;
        }
        proof {
            assert(changes.deep_view().restrict(walked(changes.names(), i as int))
                =~= changes.deep_view()) by {
                assert forall|f: Seq<char>| changes@.contains_key(f) implies walked(
                    changes.names(),
                    i as int,
                ).contains(f) by {
                    changes.lemma_key_is_walked(f);
                }
            }
        }
        Ok(v)
    }
}

spec fn held_at(history: Seq<Revision>, i: int, k: (Seq<char>, u128)) -> bool {
    &&& 0 <= i < history.len()
    &&& history[i].filename@ == k.0
    &&& history[i].version == k.1
}

spec fn archive_of(history: Seq<Revision>) -> Map<(Seq<char>, u128), Seq<u8>> {
    Map::new(
        |k: (Seq<char>, u128)| exists|i: int| held_at(history, i, k),
        |k: (Seq<char>, u128)| history[choose|i: int| held_at(history, i, k)].content@,
    )
}

/// What a commit reports where `file` is already at the highest version there is.
pub open spec fn no_room_message(file: Seq<char>) -> Seq<char> {
    "no version is left above those of `"@ + file + "`"@
}

/// Monotonicity. A commit gives every file that it changes a version strictly
/// above the one the file had, and leaves the version of every other file as
/// it was: over successive commits the versions of a file only rise.
pub proof fn lemma_commit_raises_versions(
    store: SnapshotStore,
    changes: Changes,
    now: u128,
    v: u128,
    file: Seq<char>,
)
    requires
        store.is_commit_version(changes.dom(), now, v),
        store.latest().contains_key(file),
        latest_after(store.latest(), changes, v).contains_key(file),
    ensures
        changes.contains_key(file) ==> store.latest()[file] < latest_after(
            store.latest(),
            changes,
            v,
        )[file],
        !changes.contains_key(file) ==> store.latest()[file] == latest_after(
            store.latest(),
            changes,
            v,
        )[file],
{
    if changes.contains_key(file) {
        assert(changes.dom().contains(file));
        assert(store.is_above(file, v));
    }
}

/// What the archive holds is never overwritten: after a commit every content
/// that was archived is there as it was, and the content of each changed file
/// is there under the new version.
pub proof fn lemma_commit_keeps_archive(
    store: SnapshotStore,
    changes: Changes,
    now: u128,
    v: u128,
    file: Seq<char>,
    w: u128,
)
    requires
        store.is_commit_version(changes.dom(), now, v),
    ensures
        store.archive().contains_key((file, w)) ==> archive_after(
            store.archive(),
            changes,
            v,
        ).contains_key((file, w)) && archive_after(store.archive(), changes, v)[(file, w)]
            == store.archive()[(file, w)],
        changes.contains_key(file) && changes[file] is Some ==> archive_after(
            store.archive(),
            changes,
            v,
        ).contains_key((file, v)) && archive_after(store.archive(), changes, v)[(file, v)]
            == changes[file]->Some_0,
{
    if changes.contains_key(file) && changes[file] is Some {
        assert(changes.dom().contains(file));
        assert(store.is_above(file, v));
        if store.archive().contains_key((file, v)) {
            assert(v < v);
        }
    }
}

} // verus!
