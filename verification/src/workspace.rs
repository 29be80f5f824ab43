//! The workspace: the changes made locally that no sync has committed yet.

use crate::cr::{cr_path, cr_path_of};
use crate::error::{Error, ErrorView};
use crate::file_map::{lemma_walked_step, strictly_sorted, walked, FileMap};
use crate::text::{decimal, decimal_of};
use vstd::prelude::*;
use vstd::string::*;

verus! {

/// One pending change: a file that was added, edited or deleted locally.
/// An entry with a change request belongs to that change request alone.
#[derive(Debug)]
pub struct WorkspaceEntry {
    /// The path under which the workspace holds the entry.
    pub filename: String,
    pub deleted: bool,
    /// The version that the change is based on; `None` for a file that was
    /// never committed.
    pub version: Option<u128>,
    pub cr: Option<usize>,
}

/// A `WorkspaceEntry`, as the contracts speak of it.
pub struct WorkspaceEntryView {
    pub filename: Seq<char>,
    pub deleted: bool,
    pub version: Option<u128>,
    pub cr: Option<usize>,
}

impl View for WorkspaceEntry {
    type V = WorkspaceEntryView;

    open spec fn view(&self) -> WorkspaceEntryView {
        WorkspaceEntryView {
            filename: self.filename@,
            deleted: self.deleted,
            version: self.version,
            cr: self.cr,
        }
    }
}

impl DeepView for WorkspaceEntry {
    type V = WorkspaceEntryView;

    open spec fn deep_view(&self) -> WorkspaceEntryView {
        self@
    }
}

impl Clone for WorkspaceEntry {
    fn clone(&self) -> (r: Self)
        ensures
            r@ == self@,
    {
        WorkspaceEntry {
            filename: self.filename.clone(),
            deleted: self.deleted,
            version: self.version,
            cr: self.cr,
        }
    }
}

impl WorkspaceEntry {
    /// Marks the file as deleted.
    pub fn set_deleted(&mut self)
        ensures
            final(self)@ == (WorkspaceEntryView { deleted: true, ..old(self)@ }),
    {
        self.deleted = true;
    }
}

/// The path under which the workspace holds the change to `filename`: the
/// name itself in the main workspace, and the name below the path of the
/// change request for a change that belongs to one.
pub open spec fn workspace_path(filename: Seq<char>, cr: Option<usize>) -> Seq<char> {
    match cr {
        Some(n) => cr_path_of(n) + "/"@ + filename,
        None => filename,
    }
}

/// The entry that `add` makes for a file.
pub open spec fn added_entry(filename: Seq<char>, cr: Option<usize>) -> WorkspaceEntryView {
    WorkspaceEntryView {
        filename: workspace_path(filename, cr),
        deleted: false,
        version: None,
        cr,
    }
}

/// The workspace that a list of entries stands for: each path with its last entry.
pub open spec fn workspace_of(entries: Seq<WorkspaceEntryView>) -> Map<
    Seq<char>,
    WorkspaceEntryView,
>
    decreases entries.len(),
{
    if entries.len() == 0 {
        Map::empty()
    } else {
        workspace_of(entries.drop_last()).insert(entries.last().filename, entries.last())
    }
}

/// What is reported of a file that is removed without being in the latest
/// snapshots.
pub open spec fn not_in_latest(file: Seq<char>) -> Seq<char> {
    file + " doesn't exists in latest. If added in workspace use `fpm revert "@ + file
        + "` command instead"@
}

/// What is reported of a file that the workspace has no entry for.
pub open spec fn not_in_workspace(file: Seq<char>) -> Seq<char> {
    file + " is not present in workspace"@
}

/// What is to be done to the working copy of a file after a revert.
#[derive(Debug)]
pub enum Reverted {
    /// The working copy is replaced by what the file held at this version.
    Restore { version: u128 },
    /// The working copy is removed: the file was never committed.
    Remove,
}

/// The workspace of a package: its pending changes, by path. Each entry is
/// held under its own `filename`, so there is one entry at most for a path.
#[derive(Debug)]
pub struct Workspace {
    entries: FileMap<WorkspaceEntry>,
}

impl Workspace {
    /// The pending changes, by path.
    pub closed spec fn view(&self) -> Map<Seq<char>, WorkspaceEntryView> {
        self.entries.deep_view()
    }

    /// The pending changes in the order in which they are written out.
    pub closed spec fn listing(&self) -> Seq<WorkspaceEntryView> {
        self.entries.items().map_values(|e: WorkspaceEntry| e@)
    }

    /// Every entry is held under its own path.
    pub closed spec fn wf(&self) -> bool {
        &&& self.entries.wf()
        &&& forall|k: Seq<char>|
            self.entries@.contains_key(k) ==> (#[trigger] self.entries@[k]).filename@ == k
    }

    /// The paths of the entries, in file-name order.
    pub closed spec fn paths(&self) -> Seq<Seq<char>> {
        self.entries.names()
    }

    /// The paths are those of the entries, each once and in file-name order.
    pub proof fn lemma_paths(&self)
        requires
            self.wf(),
        ensures
            strictly_sorted(self.paths()),
            forall|i: int|
                0 <= i < self.paths().len() ==> self@.contains_key(#[trigger] self.paths()[i]),
            forall|f: Seq<char>|
                self@.contains_key(f) ==> exists|i: int|
                    0 <= i < self.paths().len() && self.paths()[i] == f,
    {
        assert forall|i: int| 0 <= i < self.paths().len() implies self@.contains_key(
            #[trigger] self.paths()[i],
        ) by {
            self.entries.lemma_walk(i);
        }
        assert forall|f: Seq<char>| self@.contains_key(f) implies exists|i: int|
            0 <= i < self.paths().len() && self.paths()[i] == f by {
            self.entries.lemma_key_is_walked(f);
        }
    }

    /// The number of entries.
    pub fn len(&self) -> (n: usize)
        requires
            self.wf(),
        ensures
            n == self.paths().len(),
    {
        self.entries.len()
    }

    /// The `i`-th entry in file-name order.
    pub fn entry_at(&self, i: usize) -> (e: &WorkspaceEntry)
        requires
            self.wf(),
            i < self.paths().len(),
        ensures
            e.filename@ == self.paths()[i as int],
            self@.contains_key(self.paths()[i as int]),
            e@ == self@[self.paths()[i as int]],
    {
        proof {
            self.entries.lemma_walk(i as int);
        }
        self.entries.item_at(i)
    }

    /// In a well-formed workspace every entry is held under its own path.
    pub proof fn lemma_keyed_by_filename(&self, k: Seq<char>)
        requires
            self.wf(),
            self@.contains_key(k),
        ensures
            self@[k].filename == k,
    {
    }

    /// A workspace without pending changes.
    pub fn new() -> (w: Self)
        ensures
            w.wf(),
            w@ == Map::<Seq<char>, WorkspaceEntryView>::empty(),
    {
        let w = Workspace { entries: FileMap::new() };
        assert(w@ =~= Map::<Seq<char>, WorkspaceEntryView>::empty());
        w
    }

    /// The workspace that the given entries stand for. Where two entries have
    /// one path, the later one stays.
    pub fn from_entries(entries: Vec<WorkspaceEntry>) -> (w: Self)
        ensures
            w.wf(),
            w@ == workspace_of(entries.deep_view()),
    {
        let mut w = Workspace::new();
        let mut i: usize = 0;
        while i < entries.len()
            invariant
                i <= entries.len(),
                w.wf(),
                w@ == workspace_of(entries.deep_view().take(i as int)),
            decreases entries.len() - i,
        {
            proof {
                let next = entries.deep_view().take(i + 1);
                assert(next.drop_last() =~= entries.deep_view().take(i as int));
                assert(next.last() == entries[i as int]@);
            }
            w.put(entries[i].clone());
            i += 1;
        }
        assert(entries.deep_view().take(entries.len() as int) =~= entries.deep_view());
        w
    }

    /// All entries, in the order of their paths: what is written out when the
    /// workspace is persisted.
    pub fn into_entries(self) -> (entries: Vec<WorkspaceEntry>)
        requires
            self.wf(),
        ensures
            entries.deep_view() == self.listing(),
    {
        let ghost items = self.entries.items();
        let entries = self.entries.into_values();
        assert(entries.deep_view() =~= items.map_values(|e: WorkspaceEntry| e@));
        entries
    }

    /// The entry for `path`, if there is one.
    pub fn get(&self, path: &str) -> (r: Option<&WorkspaceEntry>)
        requires
            self.wf(),
        ensures
            match r {
                Some(e) => self@.contains_key(path@) && e@ == self@[path@],
                None => !self@.contains_key(path@),
            },
    {
        self.entries.get(path)
    }

    /// Whether there is an entry for `path`.
    pub fn contains_key(&self, path: &str) -> (b: bool)
        requires
            self.wf(),
        ensures
            b == self@.contains_key(path@),
    {
        self.entries.contains_key(path)
    }

    /// Puts `entry` under its own path, in place of what was there.
    pub fn put(&mut self, entry: WorkspaceEntry)
        requires
            old(self).wf(),
        ensures
            final(self).wf(),
            final(self)@ == old(self)@.insert(entry.filename@, entry@),
    {
        let ghost before = self.entries@;
        let key = entry.filename.clone();
        self.entries.insert(key, entry);
        proof {
            assert forall|k: Seq<char>| self.entries@.contains_key(k) implies (
            #[trigger] self.entries@[k]).filename@ == k by {
                if k != entry.filename@ {
                    assert(before.contains_key(k));
                    assert(self.entries@[k] == before[k]);
                }
            }
            assert(self@ =~= old(self)@.insert(entry.filename@, entry@));
        }
    }

    /// Takes the entry for `path` out of the workspace, if there is one.
    pub fn discard(&mut self, path: &str) -> (r: Option<WorkspaceEntry>)
        requires
            old(self).wf(),
        ensures
            final(self).wf(),
            final(self)@ == old(self)@.remove(path@),
            match r {
                Some(e) => old(self)@.contains_key(path@) && e@ == old(self)@[path@],
                None => !old(self)@.contains_key(path@),
            },
    {
        let ghost before = self.entries@;
        let r = self.entries.remove(path);
        proof {
            assert forall|k: Seq<char>| self.entries@.contains_key(k) implies (
            #[trigger] self.entries@[k]).filename@ == k by {
                assert(before.contains_key(k));
                assert(self.entries@[k] == before[k]);
            }
            assert(self@ =~= old(self)@.remove(path@));
        }
        r
    }

    /// Takes every entry of the main workspace out; those of the change
    /// requests stay.
    pub fn clear_main(&mut self)
        requires
            old(self).wf(),
        ensures
            final(self).wf(),
            final(self)@ == old(self)@.remove_keys(touched(old(self)@)),
    {
        let mut kept = Workspace::new();
        let mut i: usize = 0;
        let ghost all = self@;
        let ghost paths = self.paths();
        while i < self.len()
            invariant
                self.wf(),
                kept.wf(),
                all == self@,
                paths == self.paths(),
                i <= paths.len(),
                kept@ == all.restrict(walked(paths, i as int)).remove_keys(touched(all)),
            decreases paths.len() - i,
        {
            let entry = self.entry_at(i);
            let ghost before = kept@;
            proof {
                lemma_walked_step(paths, i as int);
            }
            if entry.cr.is_some() {
                kept.put(entry.clone());
            }
            assert(kept@ =~= all.restrict(walked(paths, i + 1)).remove_keys(touched(all)));
            i += 1;
        }
        proof {
            self.lemma_paths();
            assert(all.restrict(walked(paths, i as int)) =~= all) by {
                assert forall|f: Seq<char>| all.contains_key(f) implies walked(
                    paths,
                    i as int,
                ).contains(f) by {
                    let j = choose|j: int| 0 <= j < paths.len() && paths[j] == f;
                    assert(0 <= j < i && paths[j] == f);
                }
            }
        }
        *self = kept;
    }

    /// Adds `filename` to the workspace as a new file, in the main workspace
    /// or in the change request `cr`: its entry is not deleted and is based
    /// on no version. It takes the place of an entry that the workspace had
    /// under the same path.
    pub fn add(&mut self, filename: &str, cr: Option<usize>)
        requires
            old(self).wf(),
        ensures
            final(self).wf(),
            final(self)@ == old(self)@.insert(
                workspace_path(filename@, cr),
                added_entry(filename@, cr),
            ),
    {
        let path = match cr {
            Some(n) => {
                let mut path = cr_path(n);
                path.append("/");
                path.append(filename);
                path
            },
            None => filename.to_owned(),
        };
        self.put(WorkspaceEntry { filename: path, deleted: false, version: None, cr });
    }

    /// Reverts the pending change to `filename`: its entry leaves the
    /// workspace, and the result says what becomes of the working copy. The
    /// file goes back to its latest committed snapshot, or is removed where
    /// it has none. It fails where the workspace has no entry for the file.
    pub fn revert(&mut self, filename: &str, latest: &FileMap<u128>) -> (r: Result<Reverted, Error>)
        requires
            old(self).wf(),
            latest.wf(),
        ensures
            final(self).wf(),
            match r {
                Ok(action) => {
                    &&& old(self)@.contains_key(filename@)
                    &&& final(self)@ == old(self)@.remove(filename@)
                    &&& action == if latest@.contains_key(filename@) {
                        Reverted::Restore { version: latest@[filename@] }
                    } else {
                        Reverted::Remove
                    }
                },
                Err(e) => {
                    &&& !old(self)@.contains_key(filename@)
                    &&& final(self)@ == old(self)@
                    &&& e@ == (ErrorView::UsageError { message: not_in_workspace(filename@) })
                },
            },
    {
        match self.discard(filename) {
            Some(_) => {
                match latest.get(filename) {
                    Some(version) => Ok(Reverted::Restore { version: *version }),
                    None => Ok(Reverted::Remove),
                }
            },
            None => {
                let mut message = filename.to_owned();
                message.append(" is not present in workspace");
                assert(self@ =~= old(self)@);
                Err(Error::UsageError { message })
            },
        }
    }
}

/// The paths that the main workspace touches: those of the entries that
/// belong to no change request.
pub open spec fn touched(workspace: Map<Seq<char>, WorkspaceEntryView>) -> Set<Seq<char>> {
    Set::new(|f: Seq<char>| workspace.contains_key(f) && workspace[f].cr is None)
}

/// What a removal in the main workspace comes to: the workspace after it, or
/// the error it is refused with.
pub open spec fn simple_rm_result(
    workspace: Map<Seq<char>, WorkspaceEntryView>,
    latest: Set<Seq<char>>,
    file: Seq<char>,
) -> Result<Map<Seq<char>, WorkspaceEntryView>, ErrorView> {
    if !latest.contains(file) {
        Err(ErrorView::UsageError { message: not_in_latest(file) })
    } else if !workspace.contains_key(file) {
        Err(ErrorView::UsageError { message: not_in_workspace(file) })
    } else {
        Ok(workspace.insert(file, WorkspaceEntryView { deleted: true, ..workspace[file] }))
    }
}

/// Removes `file`, a committed file, in the main workspace: its entry is
/// marked as deleted, and the result names the working copy that the caller
/// is to remove if it is there.
///
/// It fails, and changes nothing, where the file is not in `latest`, the
/// latest snapshots (such a file was only added: revert it instead), and
/// where the workspace has no entry for it.
pub fn simple_rm(workspace: &mut Workspace, latest: &FileMap<u128>, file: &str) -> (r: Result<
    String,
    Error,
>)
    requires
        old(workspace).wf(),
        latest.wf(),
    ensures
        final(workspace).wf(),
        match simple_rm_result(old(workspace)@, latest@.dom(), file@) {
            Ok(after) => r is Ok && final(workspace)@ == after && r->Ok_0@ == file@,
            Err(e) => r is Err && r->Err_0@ == e && final(workspace)@ == old(workspace)@,
        },
{
    if !latest.contains_key(file) {
        let mut message = file.to_owned();
        message.append(" doesn't exists in latest. If added in workspace use `fpm revert ");
        message.append(file);
        message.append("` command instead");
        return Err(Error::UsageError { message });
    }
    match workspace.discard(file) {
        Some(entry) => {
            let mut entry = entry;
            proof {
                old(workspace).lemma_keyed_by_filename(file@);
            }
            entry.set_deleted();
            let path = entry.filename.clone();
            workspace.put(entry);
            assert(workspace@ =~= old(workspace)@.insert(
                file@,
                WorkspaceEntryView { deleted: true, ..old(workspace)@[file@] },
            ));
            Ok(path)
        },
        None => {
            let mut message = file.to_owned();
            message.append(" is not present in workspace");
            assert(workspace@ =~= old(workspace)@);
            Err(Error::UsageError { message })
        },
    }
}

/// Revert is not delete. Removing a file that is not in the latest snapshots
/// is refused as a usage error, whatever the workspace holds. Removing a file
/// that is there, and that the workspace has an entry for, succeeds: the
/// entry is marked as deleted, and nothing else in the workspace changes.
pub proof fn lemma_rm_needs_a_committed_file(
    workspace: Map<Seq<char>, WorkspaceEntryView>,
    latest: Set<Seq<char>>,
    file: Seq<char>,
)
    ensures
        !latest.contains(file) ==> simple_rm_result(workspace, latest, file) == Err::<
            Map<Seq<char>, WorkspaceEntryView>,
            ErrorView,
        >(ErrorView::UsageError { message: not_in_latest(file) }),
        latest.contains(file) && workspace.contains_key(file) ==> ({
            let r = simple_rm_result(workspace, latest, file);
            &&& r is Ok
            &&& r->Ok_0.dom() == workspace.dom()
            &&& r->Ok_0[file].deleted
            &&& r->Ok_0[file].filename == workspace[file].filename
            &&& forall|other: Seq<char>|
                other != file && workspace.contains_key(other) ==> r->Ok_0[other]
                    == workspace[other]
        }),
{
    if latest.contains(file) && workspace.contains_key(file) {
        let r = simple_rm_result(workspace, latest, file);
        assert(r->Ok_0.dom() =~= workspace.dom());
    }
}

/// How a flag is written.
pub open spec fn flag_text(b: bool) -> Seq<char> {
    if b {
        "true"@
    } else {
        "false"@
    }
}

/// The record of one entry, as the workspace manifest holds it.
pub open spec fn entry_text(e: WorkspaceEntryView) -> Seq<char> {
    let start = "\n\n-- fpm.client-workspace: "@ + e.filename + "\ndeleted: "@ + flag_text(
        e.deleted,
    );
    let with_version = match e.version {
        Some(v) => start + "\nversion: "@ + decimal_of(v as nat),
        None => start,
    };
    match e.cr {
        Some(n) => with_version + "\ncr: "@ + decimal_of(n as nat),
        None => with_version,
    }
}

/// The text of the workspace manifest with the given entries: the import
/// line, then the entries in the order given.
pub open spec fn workspace_text(entries: Seq<WorkspaceEntryView>) -> Seq<char>
    decreases entries.len(),
{
    if entries.len() == 0 {
        "-- import: fpm"@
    } else {
        workspace_text(entries.drop_last()) + entry_text(entries.last())
    }
}

/// Writes the workspace manifest. The caller replaces the whole manifest
/// with this text.
pub fn write_workspace(entries: &[WorkspaceEntry]) -> (text: String)
    ensures
        text@ == workspace_text(entries.deep_view()),
{
    let mut text = "-- import: fpm".to_owned();
    let mut i: usize = 0;
    while i < entries.len()
        invariant
            i <= entries.len(),
            text@ == workspace_text(entries.deep_view().take(i as int)),
        decreases entries.len() - i,
    {
        proof {
            let next = entries.deep_view().take(i + 1);
            assert(next.drop_last() =~= entries.deep_view().take(i as int));
            assert(next.last() == entries[i as int]@);
        }
        let e = &entries[i];
        let mut record = "\n\n-- fpm.client-workspace: ".to_owned();
        record.append(e.filename.as_str());
        record.append("\ndeleted: ");
        if e.deleted {
            record.append("true");
        } else {
            record.append("false");
        }
        match e.version {
            Some(v) => {
                record.append("\nversion: ");
                record.append(decimal(v).as_str());
            },
            None => {},
        }
        match e.cr {
            Some(n) => {
                record.append("\ncr: ");
                record.append(decimal(n as u128).as_str());
            },
            None => {},
        }
        assert(record@ =~= entry_text(e@));
        text.append(record.as_str());
        i += 1;
    }
    assert(entries.deep_view().take(entries.len() as int) =~= entries.deep_view());
    text
}

} // verus!
