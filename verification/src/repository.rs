//! A package as the commands see it: its snapshot store, its workspace and
//! its change requests.

use crate::cr::{
    cr_path, cr_path_of, cr_rm, cr_rm_result, CRAbout, CRAboutView, CRDeleted, CRDeletedView,
    FileEdit, FileEditView,
};
use crate::error::{Error, ErrorView};
use crate::file_map::FileMap;
use crate::store::SnapshotStore;
use crate::text::{join3, parse_usize, parsed_number};
use crate::workspace::{
    added_entry, not_in_workspace, simple_rm, simple_rm_result, workspace_path, Reverted,
    Workspace,
};
use vstd::prelude::*;
use vstd::string::*;

verus! {

/// A change request: its record and its ledger of deleted files.
#[derive(Debug)]
pub struct ChangeRequest {
    pub about: CRAbout,
    pub deleted_files: Vec<CRDeleted>,
}

/// A `ChangeRequest`, as the contracts speak of it.
pub struct ChangeRequestView {
    pub about: CRAboutView,
    pub deleted_files: Seq<CRDeletedView>,
}

impl View for ChangeRequest {
    type V = ChangeRequestView;

    open spec fn view(&self) -> ChangeRequestView {
        ChangeRequestView { about: self.about@, deleted_files: self.deleted_files.deep_view() }
    }
}

impl DeepView for ChangeRequest {
    type V = ChangeRequestView;

    open spec fn deep_view(&self) -> ChangeRequestView {
        self@
    }
}

/// The numbers of the change requests are strictly increasing.
pub open spec fn numbered_upward(crs: Seq<ChangeRequestView>) -> bool {
    forall|i: int, j: int|
        0 <= i < j < crs.len() ==> (#[trigger] crs[i]).about.cr_number < (
        #[trigger] crs[j]).about.cr_number
}

/// Where the change request with number `cr` stands in `crs`, if it is there.
pub open spec fn position_of(crs: Seq<ChangeRequestView>, cr: usize) -> Option<int>
    decreases crs.len(),
{
    if crs.len() == 0 {
        None
    } else if crs.last().about.cr_number == cr {
        Some(crs.len() - 1)
    } else {
        position_of(crs.drop_last(), cr)
    }
}

/// The number that the text `cr` gives for a change request.
pub open spec fn cr_number_of(cr: Seq<char>) -> Option<usize> {
    match parsed_number(cr) {
        Some(n) => if n <= usize::MAX {
            Some(n as usize)
        } else {
            None
        },
        None => None,
    }
}

/// What is reported of a text that is no number of a change request.
pub open spec fn not_a_number(cr: Seq<char>) -> Seq<char> {
    "`"@ + cr + "` is not the number of a change request"@
}

/// What is reported of a change request that does not exist.
pub open spec fn no_such_cr(cr: usize) -> ErrorView {
    ErrorView::NotFound { path: cr_path_of(cr), version: None }
}

/// The number that the next change request gets: one more than the highest
/// number in use.
pub open spec fn next_cr_number(crs: Seq<ChangeRequestView>) -> int {
    if crs.len() == 0 {
        1
    } else {
        crs.last().about.cr_number + 1
    }
}

/// The change requests after one with the given title was created.
pub open spec fn with_new_cr(crs: Seq<ChangeRequestView>, title: Option<Seq<char>>) -> Seq<
    ChangeRequestView,
> {
    crs.push(
        ChangeRequestView {
            about: CRAboutView { cr_number: next_cr_number(crs) as usize, open: true, title },
            deleted_files: Seq::empty(),
        },
    )
}

/// The change requests after the one at position `i` was closed.
pub open spec fn with_closed_cr(crs: Seq<ChangeRequestView>, i: int) -> Seq<ChangeRequestView> {
    crs.update(
        i,
        ChangeRequestView { about: CRAboutView { open: false, ..crs[i].about }, ..crs[i] },
    )
}

/// What closing the change request that the text `cr` names comes to.
pub open spec fn close_cr_result(crs: Seq<ChangeRequestView>, cr: Seq<char>) -> Result<
    Seq<ChangeRequestView>,
    ErrorView,
> {
    match cr_number_of(cr) {
        None => Err(ErrorView::UsageError { message: not_a_number(cr) }),
        Some(n) => match position_of(crs, n) {
            None => Err(no_such_cr(n)),
            Some(i) => Ok(with_closed_cr(crs, i)),
        },
    }
}

/// What a removal left for the caller to do.
#[derive(Debug)]
pub enum Removed {
    /// The file was removed in the main workspace: its working copy, under
    /// this path, is to be removed if it is there.
    WorkingCopy { path: String },
    /// The file was entered in the ledger of this change request.
    InChangeRequest { cr: usize },
}

/// A package as the commands see it.
#[derive(Debug)]
pub struct Repository {
    pub store: SnapshotStore,
    pub workspace: Workspace,
    pub change_requests: Vec<ChangeRequest>,
}

impl Repository {
    /// The parts are well formed, and the change requests numbered upward.
    pub open spec fn wf(&self) -> bool {
        &&& self.store.wf()
        &&& self.workspace.wf()
        &&& numbered_upward(self.change_requests.deep_view())
    }

    /// Where the change request with number `cr` stands, if it exists.
    pub fn find_cr(&self, cr: usize) -> (r: Option<usize>)
        ensures
            match r {
                Some(i) => position_of(self.change_requests.deep_view(), cr) == Some(i as int)
                    && i < self.change_requests.len()
                    && self.change_requests[i as int].about.cr_number == cr,
                None => position_of(self.change_requests.deep_view(), cr) is None,
            },
    {
        let ghost crs = self.change_requests.deep_view();
        let mut i: usize = self.change_requests.len();
        assert(crs.take(i as int) =~= crs);
        while i > 0
            invariant
                i <= self.change_requests.len(),
                crs == self.change_requests.deep_view(),
                position_of(crs, cr) == position_of(crs.take(i as int), cr),
            decreases i,
        {
            i -= 1;
            assert(crs.take(i + 1).drop_last() =~= crs.take(i as int));
            if self.change_requests[i].about.cr_number == cr {
                return Some(i);
            }
        }
        None
    }

}

/// Creates a change request with the given title, open and with an empty
/// ledger, and returns its number: one more than the highest number in use,
/// or one where there is no change request yet. It fails, and changes
/// nothing, where no number is left.
pub fn create_cr(repository: &mut Repository, title: Option<&str>) -> (r: Result<usize, Error>)
        requires
            old(repository).wf(),
        ensures
            final(repository).wf(),
            final(repository).store == old(repository).store,
            final(repository).workspace == old(repository).workspace,
            match r {
                Ok(cr) => {
                    &&& cr == next_cr_number(old(repository).change_requests.deep_view())
                    &&& final(repository).change_requests.deep_view() == with_new_cr(
                        old(repository).change_requests.deep_view(),
                        title.deep_view(),
                    )
                },
                Err(e) => {
                    &&& next_cr_number(old(repository).change_requests.deep_view()) > usize::MAX
                    &&& e@ == (ErrorView::PackageError {
                        message: "no number is left for a change request"@,
                    })
                    &&& final(repository).change_requests == old(repository).change_requests
                },
            },
    {
        let n = repository.change_requests.len();
        let highest: usize = if n == 0 {
            0
        } else {
            repository.change_requests[n - 1].about.cr_number
        };
        if highest == usize::MAX {
            return Err(
                Error::PackageError { message: "no number is left for a change request".to_owned() },
            );
        }
        let owned_title = match title {
            Some(t) => Some(t.to_owned()),
            None => None,
        };
        let ghost before = repository.change_requests.deep_view();
        let request = ChangeRequest {
            about: CRAbout { cr_number: highest + 1, open: true, title: owned_title },
            deleted_files: Vec::new(),
        };
        proof {
            assert(request.deleted_files.deep_view() =~= Seq::<CRDeletedView>::empty());
            assert(request.about.title.deep_view() == title.deep_view());
            if n > 0 {
                assert(before.last() == repository.change_requests[n - 1]@);
            }
        }
        repository.change_requests.push(request);
        proof {
            let after = repository.change_requests.deep_view();
            assert(after =~= with_new_cr(before, title.deep_view()));
            assert forall|i: int, j: int| 0 <= i < j < after.len() implies (
            #[trigger] after[i]).about.cr_number < (#[trigger] after[j]).about.cr_number by {
                if j == n {
                    if i < n - 1 {
                        assert(before[i].about.cr_number < before[n - 1].about.cr_number);
                    }
                } else {
                    assert(before[i].about.cr_number < before[j].about.cr_number);
                }
            }
        }
        Ok(highest + 1)
    }

/// Closes the change request that the text `cr` names. Its record stays,
/// with its ledger, and nothing else is touched.
///
/// It fails, and changes nothing, where `cr` is not a number, and where
/// there is no change request of that number.
pub fn close_cr(repository: &mut Repository, cr: &str) -> (r: Result<(), Error>)
        requires
            old(repository).wf(),
        ensures
            final(repository).wf(),
            final(repository).store == old(repository).store,
            final(repository).workspace == old(repository).workspace,
            match close_cr_result(old(repository).change_requests.deep_view(), cr@) {
                Ok(crs) => r is Ok && final(repository).change_requests.deep_view() == crs,
                Err(e) => r is Err && r->Err_0@ == e && final(repository).change_requests == old(repository).change_requests,
            },
    {
        let number = match parse_usize(cr) {
            Some(n) => n,
            None => {
                return Err(
                    Error::UsageError {
                        message: join3("`", cr, "` is not the number of a change request"),
                    },
                );
            },
        };
        let i = match repository.find_cr(number) {
            Some(i) => i,
            None => {
                return Err(Error::NotFound { path: cr_path(number), version: None });
            },
        };
        let ghost before = repository.change_requests.deep_view();
        let request = repository.change_requests.remove(i);
        let closed = ChangeRequest {
            about: request.about.unset_open(),
            deleted_files: request.deleted_files,
        };
        repository.change_requests.insert(i, closed);
        proof {
            let after = repository.change_requests.deep_view();
            assert(after =~= with_closed_cr(before, i as int));
            assert forall|a: int, b: int| 0 <= a < b < after.len() implies (
            #[trigger] after[a]).about.cr_number < (#[trigger] after[b]).about.cr_number by {
                assert(before[a].about.cr_number < before[b].about.cr_number);
            }
        }
        Ok(())
    }

/// The change requests after the ledger of the one at position `i` became `ledger`.
pub open spec fn with_ledger(crs: Seq<ChangeRequestView>, i: int, ledger: Seq<CRDeletedView>) -> Seq<
    ChangeRequestView,
> {
    crs.update(i, ChangeRequestView { deleted_files: ledger, ..crs[i] })
}

/// What removing `file` comes to, in the main workspace where `cr` is `None`
/// and else in the change request that `cr` names: the workspace and the
/// change requests after it, or the error it is refused with.
pub open spec fn rm_result(
    repository: Repository,
    remote_manifest: Map<Seq<char>, FileEditView>,
    file: Seq<char>,
    cr: Option<Seq<char>>,
) -> Result<(Map<Seq<char>, crate::workspace::WorkspaceEntryView>, Seq<ChangeRequestView>), ErrorView> {
    let crs = repository.change_requests.deep_view();
    match cr {
        None => match simple_rm_result(
            repository.workspace@,
            repository.store.latest().dom(),
            file,
        ) {
            Ok(workspace) => Ok((workspace, crs)),
            Err(e) => Err(e),
        },
        Some(text) => match cr_number_of(text) {
            None => Err(ErrorView::UsageError { message: not_a_number(text) }),
            Some(n) => match position_of(crs, n) {
                None => Err(no_such_cr(n)),
                Some(i) => match cr_rm_result(
                    remote_manifest,
                    crs[i].deleted_files,
                    repository.workspace@,
                    file,
                    n,
                ) {
                    Ok((ledger, workspace)) => Ok((workspace, with_ledger(crs, i, ledger))),
                    Err(e) => Err(e),
                },
            },
        },
    }
}

/// Removes `file`: in the main workspace where `cr` is `None`, and else in
/// the change request that the text `cr` names.
///
/// In the main workspace the file must be in the latest snapshots and have an
/// entry in the workspace; the entry is marked as deleted, and the result
/// names the working copy to remove. In a change request the file must be in
/// the remote manifest and not yet in the ledger of the change request; it is
/// entered there. On any failure nothing changes.
pub fn rm(
    repository: &mut Repository,
    remote_manifest: &FileMap<FileEdit>,
    file: &str,
    cr: Option<&str>,
) -> (r: Result<Removed, Error>)
    requires
        old(repository).wf(),
        remote_manifest.wf(),
    ensures
        final(repository).wf(),
        final(repository).store == old(repository).store,
        match rm_result(*old(repository), remote_manifest.deep_view(), file@, cr.deep_view()) {
            Ok((workspace, crs)) => {
                &&& r is Ok
                &&& final(repository).workspace@ == workspace
                &&& final(repository).change_requests.deep_view() == crs
                &&& match r->Ok_0 {
                    Removed::WorkingCopy { path } => cr is None && path@ == file@,
                    Removed::InChangeRequest { cr: n } => cr is Some && cr_number_of(cr->Some_0@)
                        == Some(n),
                }
            },
            Err(e) => {
                &&& r is Err
                &&& r->Err_0@ == e
                &&& final(repository).workspace@ == old(repository).workspace@
                &&& final(repository).change_requests.deep_view() == old(
                    repository,
                ).change_requests.deep_view()
            },
        },
{
    let text = match cr {
        None => {
            return match simple_rm(
                &mut repository.workspace,
                repository.store.latest_snapshots(),
                file,
            ) {
                Ok(path) => Ok(Removed::WorkingCopy { path }),
                Err(e) => Err(e),
            };
        },
        Some(text) => text,
    };
    let number = match parse_usize(text) {
        Some(n) => n,
        None => {
            return Err(
                Error::UsageError {
                    message: join3("`", text, "` is not the number of a change request"),
                },
            );
        },
    };
    let i = match repository.find_cr(number) {
        Some(i) => i,
        None => {
            return Err(Error::NotFound { path: cr_path(number), version: None });
        },
    };
    let ghost before = repository.change_requests.deep_view();
    let mut request = repository.change_requests.remove(i);
    let r = cr_rm(
        remote_manifest,
        &mut request.deleted_files,
        &mut repository.workspace,
        file,
        number,
    );
    repository.change_requests.insert(i, request);
    proof {
        let after = repository.change_requests.deep_view();
        assert(after =~= with_ledger(before, i as int, request.deleted_files.deep_view()));
        if r is Err {
            assert(after =~= before);
        }
        assert forall|a: int, b: int| 0 <= a < b < after.len() implies (
        #[trigger] after[a]).about.cr_number < (#[trigger] after[b]).about.cr_number by {
            assert(before[a].about.cr_number < before[b].about.cr_number);
        }
    }
    match r {
        Ok(()) => Ok(Removed::InChangeRequest { cr: number }),
        Err(e) => Err(e),
    }
}

/// What adding `file` comes to, in the main workspace where `cr` is `None`
/// and else in the change request that `cr` names: the workspace after it,
/// or the error it is refused with.
pub open spec fn add_result(repository: Repository, file: Seq<char>, cr: Option<Seq<char>>) -> Result<
    Map<Seq<char>, crate::workspace::WorkspaceEntryView>,
    ErrorView,
> {
    let workspace = repository.workspace@;
    match cr {
        None => Ok(workspace.insert(file, added_entry(file, None))),
        Some(text) => match cr_number_of(text) {
            None => Err(ErrorView::UsageError { message: not_a_number(text) }),
            Some(n) => match position_of(repository.change_requests.deep_view(), n) {
                None => Err(no_such_cr(n)),
                Some(_) => Ok(
                    workspace.insert(workspace_path(file, Some(n)), added_entry(file, Some(n))),
                ),
            },
        },
    }
}

/// Adds `file` as a new file: to the main workspace where `cr` is `None`,
/// and else to the part of the workspace that belongs to the change request
/// that the text `cr` names.
///
/// It fails, and changes nothing, where `cr` is not a number, and where
/// there is no change request of that number.
pub fn add(repository: &mut Repository, file: &str, cr: Option<&str>) -> (r: Result<(), Error>)
    requires
        old(repository).wf(),
    ensures
        final(repository).wf(),
        final(repository).store == old(repository).store,
        final(repository).change_requests == old(repository).change_requests,
        match add_result(*old(repository), file@, cr.deep_view()) {
            Ok(workspace) => r is Ok && final(repository).workspace@ == workspace,
            Err(e) => r is Err && r->Err_0@ == e && final(repository).workspace@ == old(
                repository,
            ).workspace@,
        },
{
    let text = match cr {
        None => {
            repository.workspace.add(file, None);
            return Ok(());
        },
        Some(text) => text,
    };
    let number = match parse_usize(text) {
        Some(n) => n,
        None => {
            return Err(
                Error::UsageError {
                    message: join3("`", text, "` is not the number of a change request"),
                },
            );
        },
    };
    if repository.find_cr(number).is_none() {
        return Err(Error::NotFound { path: cr_path(number), version: None });
    }
    repository.workspace.add(file, Some(number));
    Ok(())
}

/// Reverts the pending change to `path`: its entry leaves the workspace,
/// and the result says what becomes of the working copy. The file goes back
/// to its latest snapshot, or is removed where it has none. It fails, and
/// changes nothing, where the workspace has no entry for the path.
pub fn revert(repository: &mut Repository, path: &str) -> (r: Result<Reverted, Error>)
    requires
        old(repository).wf(),
    ensures
        final(repository).wf(),
        final(repository).store == old(repository).store,
        final(repository).change_requests == old(repository).change_requests,
        match r {
            Ok(action) => {
                &&& old(repository).workspace@.contains_key(path@)
                &&& final(repository).workspace@ == old(repository).workspace@.remove(path@)
                &&& action == if old(repository).store.latest().contains_key(path@) {
                    Reverted::Restore { version: old(repository).store.latest()[path@] }
                } else {
                    Reverted::Remove
                }
            },
            Err(e) => {
                &&& !old(repository).workspace@.contains_key(path@)
                &&& final(repository).workspace@ == old(repository).workspace@
                &&& e@ == (ErrorView::UsageError { message: not_in_workspace(path@) })
            },
        },
{
    repository.workspace.revert(path, repository.store.latest_snapshots())
}

} // verus!
