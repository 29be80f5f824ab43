//! Sync: bringing the changes of the main workspace into the snapshot store,
//! unless the remote has moved on since they were made.

use crate::cr::{FileEdit, FileEditView};
use crate::error::{Conflict, ConflictView, Error, ErrorView};
use crate::file_map::{lemma_walked_step, walked, FileMap};
use crate::repository::Repository;
use crate::store::{archive_after, latest_after, Change, Changes};
use crate::workspace::{touched, WorkspaceEntryView};
use vstd::prelude::*;

verus! {

/// The version that the latest snapshots give for `file`, if any.
pub open spec fn local_version(latest: Map<Seq<char>, u128>, file: Seq<char>) -> Option<u128> {
    if latest.contains_key(file) {
        Some(latest[file])
    } else {
        None
    }
}

/// The version that the remote manifest gives for `file`, if any.
pub open spec fn remote_version(manifest: Map<Seq<char>, FileEditView>, file: Seq<char>) -> Option<
    u128,
> {
    if manifest.contains_key(file) {
        Some(manifest[file].version)
    } else {
        None
    }
}

/// A file is in conflict where the remote is not at the version that the
/// local change is based on.
pub open spec fn in_conflict(
    latest: Map<Seq<char>, u128>,
    manifest: Map<Seq<char>, FileEditView>,
    file: Seq<char>,
) -> bool {
    local_version(latest, file) != remote_version(manifest, file)
}

/// The conflicts among the files at `paths` that the main workspace touches,
/// in the order of `paths`.
pub open spec fn conflicts_among(
    paths: Seq<Seq<char>>,
    workspace: Map<Seq<char>, WorkspaceEntryView>,
    latest: Map<Seq<char>, u128>,
    manifest: Map<Seq<char>, FileEditView>,
) -> Seq<ConflictView>
    decreases paths.len(),
{
    if paths.len() == 0 {
        Seq::empty()
    } else {
        let rest = conflicts_among(paths.drop_last(), workspace, latest, manifest);
        let file = paths.last();
        if touched(workspace).contains(file) && in_conflict(latest, manifest, file) {
            rest.push(
                ConflictView {
                    filename: file,
                    local: local_version(latest, file),
                    remote: remote_version(manifest, file),
                },
            )
        } else {
            rest
        }
    }
}

/// The first of `paths` that the main workspace changes without deleting it
/// and that has no working copy among `contents`.
pub open spec fn first_without_content(
    paths: Seq<Seq<char>>,
    workspace: Map<Seq<char>, WorkspaceEntryView>,
    contents: Map<Seq<char>, Seq<u8>>,
) -> Option<Seq<char>>
    decreases paths.len(),
{
    if paths.len() == 0 {
        None
    } else if touched(workspace).contains(paths[0]) && !workspace[paths[0]].deleted
        && !contents.contains_key(paths[0]) {
        Some(paths[0])
    } else {
        first_without_content(paths.drop_first(), workspace, contents)
    }
}

/// The changes that a sync commits: every file that the main workspace
/// touches, with its working copy, or as deleted.
pub open spec fn sync_changes(
    workspace: Map<Seq<char>, WorkspaceEntryView>,
    contents: Map<Seq<char>, Seq<u8>>,
) -> Changes {
    Map::new(
        |f: Seq<char>| touched(workspace).contains(f),
        |f: Seq<char>|
            if workspace[f].deleted {
                None
            } else {
                Some(contents[f])
            },
    )
}

/// Nothing of the store or the workspace differs between the two.
pub open spec fn same_state(before: Repository, after: Repository) -> bool {
    &&& after.store.latest() == before.store.latest()
    &&& after.store.archive() == before.store.archive()
    &&& after.workspace@ == before.workspace@
}

/// What a sync does: `before` and `after` are the package before and after
/// it, and `result` is what it returns.
///
/// Where a file that the main workspace touches is in conflict, the sync
/// fails with all conflicts and changes nothing. Else it fails, and changes
/// nothing, where a changed file has no working copy, and where no version is
/// left for a file. Else all touched files are committed at one new version,
/// the result, and leave the workspace.
pub open spec fn synced(
    before: Repository,
    manifest: Map<Seq<char>, FileEditView>,
    contents: Map<Seq<char>, Seq<u8>>,
    now: u128,
    result: Result<u128, ErrorView>,
    after: Repository,
) -> bool {
    let workspace = before.workspace@;
    let paths = before.workspace.paths();
    let latest = before.store.latest();
    let conflicts = conflicts_among(paths, workspace, latest, manifest);
    let changes = sync_changes(workspace, contents);
    if conflicts.len() > 0 {
        result == Err::<u128, ErrorView>(ErrorView::ConflictError { conflicts }) && same_state(
            before,
            after,
        )
    } else {
        match first_without_content(paths, workspace, contents) {
            Some(file) => result == Err::<u128, ErrorView>(
                ErrorView::NotFound { path: file, version: None },
            ) && same_state(before, after),
            None => if !before.store.has_room(changes.dom()) {
                result is Err && before.store.reports_no_room(changes.dom(), result->Err_0)
                    && same_state(before, after)
            } else {
                &&& result is Ok
                &&& before.store.is_commit_version(changes.dom(), now, result->Ok_0)
                &&& after.store.latest() == latest_after(latest, changes, result->Ok_0)
                &&& after.store.archive() == archive_after(
                    before.store.archive(),
                    changes,
                    result->Ok_0,
                )
                &&& after.workspace@ == workspace.remove_keys(touched(workspace))
            },
        }
    }
}

/// The result of a sync, as the contracts speak of it.
pub open spec fn outcome(r: Result<u128, Error>) -> Result<u128, ErrorView> {
    match r {
        Ok(v) => Ok(v),
        Err(e) => Err(e@),
    }
}

fn same_version(a: Option<u128>, b: Option<u128>) -> (r: bool)
    ensures
        r == (a == b),
{
    match a {
        Some(x) => match b {
            Some(y) => x == y,
            None => false,
        },
        None => b.is_none(),
    }
}

/// The conflicts of a sync of `repository` against `remote_manifest`.
pub fn find_conflicts(repository: &Repository, remote_manifest: &FileMap<FileEdit>) -> (conflicts:
    Vec<Conflict>)
    requires
        repository.wf(),
        remote_manifest.wf(),
    ensures
        conflicts.deep_view() == conflicts_among(
            repository.workspace.paths(),
            repository.workspace@,
            repository.store.latest(),
            remote_manifest.deep_view(),
        ),
{
    let ghost paths = repository.workspace.paths();
    let ghost w = repository.workspace@;
    let ghost latest = repository.store.latest();
    let ghost m = remote_manifest.deep_view();
    let mut conflicts: Vec<Conflict> = Vec::new();
    let mut i: usize = 0;
    assert(conflicts.deep_view() =~= Seq::<ConflictView>::empty());
    while i < repository.workspace.len()
        invariant
            repository.wf(),
            remote_manifest.wf(),
            paths == repository.workspace.paths(),
            w == repository.workspace@,
            latest == repository.store.latest(),
            m == remote_manifest.deep_view(),
            i <= paths.len(),
            conflicts.deep_view() == conflicts_among(paths.take(i as int), w, latest, m),
        decreases paths.len() - i,
    {
        let entry = repository.workspace.entry_at(i);
        proof {
            assert(paths.take(i + 1).drop_last() =~= paths.take(i as int));
            assert(paths.take(i + 1).last() == paths[i as int]);
        }
        if entry.cr.is_none() {
            let local = match repository.store.latest_snapshots().get(entry.filename.as_str()) {
                Some(v) => Some(*v),
                None => None,
            };
            let remote = match remote_manifest.get(entry.filename.as_str()) {
                Some(edit) => Some(edit.version),
                None => None,
            };
            assert(local == local_version(latest, paths[i as int]));
            assert(remote == remote_version(m, paths[i as int]));
            if !same_version(local, remote) {
                let ghost before = conflicts.deep_view();
                let conflict = Conflict { filename: entry.filename.clone(), local, remote };
                conflicts.push(conflict);
                assert(conflicts.deep_view() =~= before.push(conflict@));
            }
        }
        i += 1;
    }
    assert(paths.take(paths.len() as int) =~= paths);
    conflicts
}

/// The changes that a sync of `repository` commits, or the first file that
/// is changed and has no working copy among `contents`.
pub fn collect_changes(repository: &Repository, contents: &FileMap<Vec<u8>>) -> (r: Result<
    FileMap<Change>,
    String,
>)
    requires
        repository.wf(),
        contents.wf(),
    ensures
        match r {
            Ok(changes) => {
                &&& changes.wf()
                &&& first_without_content(
                    repository.workspace.paths(),
                    repository.workspace@,
                    contents.deep_view(),
                ) is None
                &&& changes.deep_view() == sync_changes(repository.workspace@, contents.deep_view())
            },
            Err(file) => first_without_content(
                repository.workspace.paths(),
                repository.workspace@,
                contents.deep_view(),
            ) == Some(file@),
        },
{
    let ghost paths = repository.workspace.paths();
    let ghost w = repository.workspace@;
    let ghost c = contents.deep_view();
    let mut changes: FileMap<Change> = FileMap::new();
    let mut i: usize = 0;
    proof {
        assert(paths.skip(0) =~= paths);
        assert(changes.deep_view() =~= sync_changes(w, c).restrict(walked(paths, 0)));
        repository.workspace.lemma_paths();
    }
    while i < repository.workspace.len()
        invariant
            repository.wf(),
            contents.wf(),
            paths == repository.workspace.paths(),
            w == repository.workspace@,
            c == contents.deep_view(),
            i <= paths.len(),
            changes.wf(),
            first_without_content(paths, w, c) == first_without_content(paths.skip(i as int), w, c),
            changes.deep_view() == sync_changes(w, c).restrict(walked(paths, i as int)),
        decreases paths.len() - i,
    {
        let entry = repository.workspace.entry_at(i);
        let ghost before = changes.deep_view();
        proof {
            assert(paths.skip(i as int)[0] == paths[i as int]);
            assert(paths.skip(i as int).drop_first() =~= paths.skip(i + 1));
            lemma_walked_step(paths, i as int);
        }
        if entry.cr.is_none() {
            if entry.deleted {
                changes.insert(entry.filename.clone(), None);
            } else {
                match contents.get(entry.filename.as_str()) {
                    Some(content) => {
                        let copy = content.clone();
                        assert(copy.deep_view() =~= content.deep_view());
                        changes.insert(entry.filename.clone(), Some(copy));
                    },
                    None => {
                        return Err(entry.filename.clone());
                    },
                }
            }
            assert(changes.deep_view() =~= before.insert(
                paths[i as int],
                sync_changes(w, c)[paths[i as int]],
            ));
        }
        assert(changes.deep_view() =~= sync_changes(w, c).restrict(walked(paths, i + 1)));
        i += 1;
    }
    proof {
        assert(sync_changes(w, c).restrict(walked(paths, i as int)) =~= sync_changes(w, c)) by {
            assert forall|f: Seq<char>| touched(w).contains(f) implies walked(
                paths,
                i as int,
            ).contains(f) by {
                let j = choose|j: int| 0 <= j < paths.len() && paths[j] == f;
                assert(0 <= j < i && paths[j] == f);
            }
        }
    }
    Ok(changes)
}

/// Syncs the main workspace of `repository` against `remote_manifest`, what
/// the remote holds. `contents` are the working copies of the changed files,
/// and `now` is the time of the sync.
///
/// Every file that the main workspace touches is held against the remote:
/// where the remote is at another version than the latest snapshot of the
/// file, the file is in conflict. With one conflict or more the sync fails
/// with all of them and changes nothing. Without, all touched files are
/// committed at one new version, which is above their versions so far, and
/// their entries leave the workspace.
pub fn sync(
    repository: &mut Repository,
    remote_manifest: &FileMap<FileEdit>,
    contents: &FileMap<Vec<u8>>,
    now: u128,
) -> (r: Result<u128, Error>)
    requires
        old(repository).wf(),
        remote_manifest.wf(),
        contents.wf(),
    ensures
        final(repository).wf(),
        final(repository).change_requests == old(repository).change_requests,
        synced(
            *old(repository),
            remote_manifest.deep_view(),
            contents.deep_view(),
            now,
            outcome(r),
            *final(repository),
        ),
{
    let conflicts = find_conflicts(repository, remote_manifest);
    if conflicts.len() > 0 {
        return Err(Error::ConflictError { conflicts });
    }
    let changes = match collect_changes(repository, contents) {
        Ok(changes) => changes,
        Err(file) => {
            return Err(Error::NotFound { path: file, version: None });
        },
    };
    match repository.store.commit(&changes, now) {
        Ok(v) => {
            repository.workspace.clear_main();
            Ok(v)
        },
        Err(e) => Err(e),
    }
}

proof fn lemma_conflict_is_listed(
    paths: Seq<Seq<char>>,
    workspace: Map<Seq<char>, WorkspaceEntryView>,
    latest: Map<Seq<char>, u128>,
    manifest: Map<Seq<char>, FileEditView>,
    i: int,
)
    requires
        0 <= i < paths.len(),
        touched(workspace).contains(paths[i]),
        in_conflict(latest, manifest, paths[i]),
    ensures
        conflicts_among(paths, workspace, latest, manifest).contains(
            ConflictView {
                filename: paths[i],
                local: local_version(latest, paths[i]),
                remote: remote_version(manifest, paths[i]),
            },
        ),
    decreases paths.len(),
{
    let all = conflicts_among(paths, workspace, latest, manifest);
    let rest = conflicts_among(paths.drop_last(), workspace, latest, manifest);
    if i == paths.len() - 1 {
        assert(all[rest.len() as int] == ConflictView {
            filename: paths[i],
            local: local_version(latest, paths[i]),
            remote: remote_version(manifest, paths[i]),
        });
    } else {
        lemma_conflict_is_listed(paths.drop_last(), workspace, latest, manifest, i);
        let c = ConflictView {
            filename: paths[i],
            local: local_version(latest, paths[i]),
            remote: remote_version(manifest, paths[i]),
        };
        let j = choose|j: int| 0 <= j < rest.len() && rest[j] == c;
        assert(all[j] == c);
    }
}

proof fn lemma_no_conflict_listed(
    paths: Seq<Seq<char>>,
    workspace: Map<Seq<char>, WorkspaceEntryView>,
    latest: Map<Seq<char>, u128>,
    manifest: Map<Seq<char>, FileEditView>,
)
    requires
        forall|f: Seq<char>| touched(workspace).contains(f) ==> !in_conflict(latest, manifest, f),
    ensures
        conflicts_among(paths, workspace, latest, manifest).len() == 0,
    decreases paths.len(),
{
    if paths.len() > 0 {
        lemma_no_conflict_listed(paths.drop_last(), workspace, latest, manifest);
    }
}

proof fn lemma_all_have_content(
    paths: Seq<Seq<char>>,
    workspace: Map<Seq<char>, WorkspaceEntryView>,
    contents: Map<Seq<char>, Seq<u8>>,
)
    requires
        forall|f: Seq<char>|
            touched(workspace).contains(f) && !workspace[f].deleted ==> contents.contains_key(f),
    ensures
        first_without_content(paths, workspace, contents) is None,
    decreases paths.len(),
{
    if paths.len() > 0 {
        lemma_all_have_content(paths.drop_first(), workspace, contents);
    }
}

/// Conflict detection. Where the main workspace touches `file` and the
/// remote is at another version of it than the latest snapshot, the sync
/// fails with a conflict error that names the file and both versions, and
/// the snapshot store is as it was.
pub proof fn lemma_sync_detects_conflict(
    before: Repository,
    manifest: Map<Seq<char>, FileEditView>,
    contents: Map<Seq<char>, Seq<u8>>,
    now: u128,
    result: Result<u128, ErrorView>,
    after: Repository,
    file: Seq<char>,
)
    requires
        before.wf(),
        synced(before, manifest, contents, now, result, after),
        touched(before.workspace@).contains(file),
        local_version(before.store.latest(), file) != remote_version(manifest, file),
    ensures
        result is Err,
        result->Err_0 is ConflictError,
        result->Err_0->conflicts.contains(
            ConflictView {
                filename: file,
                local: local_version(before.store.latest(), file),
                remote: remote_version(manifest, file),
            },
        ),
        after.store.latest() == before.store.latest(),
        after.store.archive() == before.store.archive(),
        after.workspace@ == before.workspace@,
{
    before.workspace.lemma_paths();
    let paths = before.workspace.paths();
    let i = choose|i: int| 0 <= i < paths.len() && paths[i] == file;
    lemma_conflict_is_listed(paths, before.workspace@, before.store.latest(), manifest, i);
}

/// A sync without conflicts commits. Where the remote is at the version of
/// the latest snapshot for every file that the main workspace touches, every
/// changed file has a working copy, and a version is left for each file, the
/// sync succeeds. A file that it changes is then at the new version, which is
/// above the version that the remote holds, and has left the workspace.
pub proof fn lemma_sync_commits(
    before: Repository,
    manifest: Map<Seq<char>, FileEditView>,
    contents: Map<Seq<char>, Seq<u8>>,
    now: u128,
    result: Result<u128, ErrorView>,
    after: Repository,
    file: Seq<char>,
)
    requires
        before.wf(),
        synced(before, manifest, contents, now, result, after),
        forall|f: Seq<char>|
            touched(before.workspace@).contains(f) ==> local_version(before.store.latest(), f)
                == remote_version(manifest, f),
        forall|f: Seq<char>|
            touched(before.workspace@).contains(f) && !before.workspace@[f].deleted
                ==> contents.contains_key(f),
        before.store.has_room(touched(before.workspace@)),
        touched(before.workspace@).contains(file),
        !before.workspace@[file].deleted,
    ensures
        result is Ok,
        after.store.latest().contains_key(file),
        after.store.latest()[file] == result->Ok_0,
        manifest.contains_key(file) ==> manifest[file].version < result->Ok_0,
        now <= result->Ok_0,
        after.store.archive().contains_key((file, result->Ok_0)),
        after.store.archive()[(file, result->Ok_0)] == contents[file],
        !after.workspace@.contains_key(file),
{
    let w = before.workspace@;
    let paths = before.workspace.paths();
    let changes = sync_changes(w, contents);
    lemma_no_conflict_listed(paths, w, before.store.latest(), manifest);
    lemma_all_have_content(paths, w, contents);
    assert(changes.dom() =~= touched(w));
    assert(changes.dom().contains(file));
    assert(before.store.is_above(file, result->Ok_0));
    assert(local_version(before.store.latest(), file) == remote_version(manifest, file));
    crate::store::lemma_commit_keeps_archive(
        before.store,
        changes,
        now,
        result->Ok_0,
        file,
        result->Ok_0,
    );
}

/// How a conflict is to be resolved.
#[derive(Debug, Clone, Copy)]
pub enum Resolution {
    /// Keep the local content.
    UseOurs,
    /// Take what the remote holds.
    UseTheirs,
    /// The file was deleted on one side: let it live.
    ReviveIt,
    /// The file was deleted on one side: let it go.
    DeleteIt,
    /// Show the conflict and change nothing.
    Print,
}

/// What resolving a conflict did, and what it leaves for the caller to do
/// to the working copy.
#[derive(Debug)]
pub enum Resolved {
    /// The working copy was committed at this version.
    Committed { version: u128 },
    /// The latest snapshot is now what the remote holds, at this version; the
    /// working copy is to be replaced by it.
    Replaced { version: u128 },
    /// The file has left the latest snapshots; the working copy is to be
    /// removed if it is there.
    Removed,
    /// Nothing was changed.
    Printed,
}

/// What a resolution comes to, before anything is committed.
pub enum Plan {
    Refuse(ErrorView),
    Nothing,
    CommitLocal(Seq<u8>),
    AdoptRemote(FileEditView),
    Forget,
}

/// What is reported of a file that is resolved without being in conflict.
pub open spec fn not_in_conflict(file: Seq<char>) -> Seq<char> {
    file + " is not in conflict"@
}

/// What is reported of a choice that does not fit the conflict: keeping a
/// side is for files that both sides hold, reviving and deleting for files
/// that one side has deleted.
pub open spec fn wrong_choice(file: Seq<char>) -> Seq<char> {
    "the conflict of "@ + file + " cannot be resolved this way"@
}

/// What is reported of a file that is to live and that both sides have deleted.
pub open spec fn nothing_to_revive(file: Seq<char>) -> Seq<char> {
    file + " is deleted on both sides"@
}

/// What the resolution `choice` of the conflict of `file` comes to. `content`
/// is the working copy of the file, if there is one.
pub open spec fn plan_of(
    workspace: Map<Seq<char>, WorkspaceEntryView>,
    latest: Map<Seq<char>, u128>,
    manifest: Map<Seq<char>, FileEditView>,
    content: Option<Seq<u8>>,
    file: Seq<char>,
    choice: Resolution,
) -> Plan {
    if !touched(workspace).contains(file) || !in_conflict(latest, manifest, file) {
        Plan::Refuse(ErrorView::UsageError { message: not_in_conflict(file) })
    } else if choice is Print {
        Plan::Nothing
    } else {
        let deletion = workspace[file].deleted || !manifest.contains_key(file);
        let keeps_a_side = choice is UseOurs || choice is UseTheirs;
        if deletion == keeps_a_side {
            Plan::Refuse(ErrorView::UsageError { message: wrong_choice(file) })
        } else if choice is DeleteIt {
            Plan::Forget
        } else if choice is UseTheirs || (choice is ReviveIt && manifest.contains_key(file)) {
            Plan::AdoptRemote(manifest[file])
        } else if workspace[file].deleted {
            Plan::Refuse(ErrorView::UsageError { message: nothing_to_revive(file) })
        } else {
            match content {
                Some(bytes) => Plan::CommitLocal(bytes),
                None => Plan::Refuse(ErrorView::NotFound { path: file, version: None }),
            }
        }
    }
}

/// The time at which local content is committed over a conflict: `now`, or
/// just after the version that the remote holds where `now` is not after it.
pub open spec fn time_over(manifest: Map<Seq<char>, FileEditView>, file: Seq<char>, now: u128) -> int {
    if manifest.contains_key(file) && manifest[file].version >= now {
        manifest[file].version + 1
    } else {
        now as int
    }
}

/// The result of a resolution, as the contracts speak of it.
pub open spec fn resolution_outcome(r: Result<Resolved, Error>) -> Result<Resolved, ErrorView> {
    match r {
        Ok(done) => Ok(done),
        Err(e) => Err(e@),
    }
}

/// What resolving the conflict of `file` does: `before` and `after` are the
/// package before and after it, and `result` is what it returns.
pub open spec fn resolved(
    before: Repository,
    manifest: Map<Seq<char>, FileEditView>,
    content: Option<Seq<u8>>,
    file: Seq<char>,
    choice: Resolution,
    now: u128,
    result: Result<Resolved, ErrorView>,
    after: Repository,
) -> bool {
    let workspace = before.workspace@;
    let latest = before.store.latest();
    let archive = before.store.archive();
    match plan_of(workspace, latest, manifest, content, file, choice) {
        Plan::Refuse(e) => result == Err::<Resolved, ErrorView>(e) && same_state(before, after),
        Plan::Nothing => result == Ok::<Resolved, ErrorView>(Resolved::Printed) && same_state(
            before,
            after,
        ),
        Plan::Forget => {
            &&& result == Ok::<Resolved, ErrorView>(Resolved::Removed)
            &&& after.store.latest() == latest.remove(file)
            &&& after.store.archive() == archive
            &&& after.workspace@ == workspace.remove(file)
        },
        Plan::AdoptRemote(edit) => {
            &&& result == Ok::<Resolved, ErrorView>(Resolved::Replaced { version: edit.version })
            &&& after.store.latest() == latest.insert(file, edit.version)
            &&& after.store.archive() == if archive.contains_key((file, edit.version)) {
                archive
            } else {
                archive.insert((file, edit.version), edit.content)
            }
            &&& after.workspace@ == workspace.remove(file)
        },
        Plan::CommitLocal(bytes) => {
            let changes = Map::<Seq<char>, Option<Seq<u8>>>::empty().insert(file, Some(bytes));
            let time = time_over(manifest, file, now);
            if time > u128::MAX || !before.store.has_room(changes.dom()) {
                result == Err::<Resolved, ErrorView>(
                    ErrorView::PackageError { message: crate::store::no_room_message(file) },
                ) && same_state(before, after)
            } else {
                &&& result is Ok
                &&& result->Ok_0 is Committed
                &&& before.store.is_commit_version(
                    changes.dom(),
                    time as u128,
                    result->Ok_0->Committed_version,
                )
                &&& after.store.latest() == latest_after(
                    latest,
                    changes,
                    result->Ok_0->Committed_version,
                )
                &&& after.store.archive() == archive_after(
                    archive,
                    changes,
                    result->Ok_0->Committed_version,
                )
                &&& after.workspace@ == workspace.remove(file)
            }
        },
    }
}

/// Resolves the conflict of `file` as `choice` says. `content` is the working
/// copy of the file, if there is one, and `now` the time.
///
/// The file must be touched by the main workspace and in conflict with
/// `remote_manifest`. Where both sides hold the file, the local content is
/// kept and committed above the remote version, or the remote content and
/// version are taken. Where one side has deleted it, the file is revived from
/// the side that holds it, or leaves the latest snapshots. In each case the
/// entry of the file leaves the workspace. Printing changes nothing. A choice
/// that does not fit the conflict is refused, and then nothing changes.
pub fn resolve_conflict(
    repository: &mut Repository,
    remote_manifest: &FileMap<FileEdit>,
    content: Option<&Vec<u8>>,
    file: &str,
    choice: Resolution,
    now: u128,
) -> (r: Result<Resolved, Error>)
    requires
        old(repository).wf(),
        remote_manifest.wf(),
    ensures
        final(repository).wf(),
        final(repository).change_requests == old(repository).change_requests,
        resolved(
            *old(repository),
            remote_manifest.deep_view(),
            content.deep_view(),
            file@,
            choice,
            now,
            resolution_outcome(r),
            *final(repository),
        ),
{
    let ghost latest = repository.store.latest();
    let ghost m = remote_manifest.deep_view();
    let (in_main, deleted) = match repository.workspace.get(file) {
        Some(entry) => (entry.cr.is_none(), entry.deleted),
        None => (false, false),
    };
    let local = match repository.store.latest_snapshots().get(file) {
        Some(v) => Some(*v),
        None => None,
    };
    let remote = remote_manifest.get(file);
    let remote_at = match remote {
        Some(edit) => Some(edit.version),
        None => None,
    };
    assert(local == local_version(latest, file@));
    assert(remote_at == remote_version(m, file@));
    if !in_main || same_version(local, remote_at) {
        let mut message = file.to_owned();
        message.append(" is not in conflict");
        return Err(Error::UsageError { message });
    }
    let deletion = deleted || remote.is_none();
    let keeps_a_side = match choice {
        Resolution::Print => {
            return Ok(Resolved::Printed);
        },
        Resolution::UseOurs => true,
        Resolution::UseTheirs => true,
        Resolution::ReviveIt => false,
        Resolution::DeleteIt => false,
    };
    if deletion == keeps_a_side {
        let mut message = "the conflict of ".to_owned();
        message.append(file);
        message.append(" cannot be resolved this way");
        return Err(Error::UsageError { message });
    }
    let take_remote = match choice {
        Resolution::DeleteIt => {
            repository.store.forget(file);
            repository.workspace.discard(file);
            return Ok(Resolved::Removed);
        },
        Resolution::UseTheirs => true,
        Resolution::ReviveIt => remote.is_some(),
        _ => false,
    };
    if take_remote {
        let edit = remote.unwrap();
        let copy = edit.content.clone();
        assert(copy@ =~= edit.content@);
        repository.store.adopt(file, edit.version, copy);
        repository.workspace.discard(file);
        return Ok(Resolved::Replaced { version: edit.version });
    }
    if deleted {
        let mut message = file.to_owned();
        message.append(" is deleted on both sides");
        return Err(Error::UsageError { message });
    }
    let bytes = match content {
        Some(bytes) => bytes,
        None => {
            return Err(Error::NotFound { path: file.to_owned(), version: None });
        },
    };
    let time = match remote_at {
        Some(v) => {
            if v >= now {
                if v == u128::MAX {
                    return Err(
                        Error::PackageError {
                            message: crate::text::join3(
                                "no version is left above those of `",
                                file,
                                "`",
                            ),
                        },
                    );
                }
                v + 1
            } else {
                now
            }
        },
        None => now,
    };
    let mut changes: FileMap<Change> = FileMap::new();
    let copy = bytes.clone();
    assert(copy.deep_view() =~= bytes.deep_view());
    changes.insert(file.to_owned(), Some(copy));
    assert(changes.deep_view() =~= Map::<Seq<char>, Option<Seq<u8>>>::empty().insert(
        file@,
        Some(bytes.deep_view()),
    ));
    match repository.store.commit(&changes, time) {
        Ok(version) => {
            repository.workspace.discard(file);
            Ok(Resolved::Committed { version })
        },
        Err(e) => Err(e),
    }
}

} // verus!
