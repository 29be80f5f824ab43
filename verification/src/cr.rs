//! Change requests: staging areas for edits, each with its own record, its
//! own ledger of deleted files and its own part of the workspace.

use crate::error::{usage_error, Error, ErrorView};
use crate::file_map::FileMap;
use crate::text::{decimal, decimal_of, str_equal};
use crate::workspace::{Workspace, WorkspaceEntry, WorkspaceEntryView};
use vstd::prelude::*;
use vstd::string::*;

verus! {

/// What the remote manifest says of one file.
#[derive(Debug)]
pub struct FileEdit {
    pub version: u128,
    pub content: Vec<u8>,
}

/// A `FileEdit`, as the contracts speak of it.
pub struct FileEditView {
    pub version: u128,
    pub content: Seq<u8>,
}

impl View for FileEdit {
    type V = FileEditView;

    open spec fn view(&self) -> FileEditView {
        FileEditView { version: self.version, content: self.content@ }
    }
}

impl DeepView for FileEdit {
    type V = FileEditView;

    open spec fn deep_view(&self) -> FileEditView {
        self@
    }
}

/// The record of a change request: its number, whether it is open, its title.
#[derive(Debug)]
pub struct CRAbout {
    pub cr_number: usize,
    pub open: bool,
    pub title: Option<String>,
}

/// A `CRAbout`, as the contracts speak of it.
pub struct CRAboutView {
    pub cr_number: usize,
    pub open: bool,
    pub title: Option<Seq<char>>,
}

impl View for CRAbout {
    type V = CRAboutView;

    open spec fn view(&self) -> CRAboutView {
        CRAboutView { cr_number: self.cr_number, open: self.open, title: self.title.deep_view() }
    }
}

impl CRAbout {
    /// The same record, closed.
    pub fn unset_open(self) -> (r: Self)
        ensures
            r@ == (CRAboutView { open: false, ..self@ }),
    {
        CRAbout { cr_number: self.cr_number, open: false, title: self.title }
    }
}

/// One line of the ledger of a change request: a file that the change
/// request deletes, and the version it had when it was deleted.
#[derive(Debug)]
pub struct CRDeleted {
    pub filename: String,
    pub version: u128,
}

/// A `CRDeleted`, as the contracts speak of it.
pub struct CRDeletedView {
    pub filename: Seq<char>,
    pub version: u128,
}

impl View for CRDeleted {
    type V = CRDeletedView;

    open spec fn view(&self) -> CRDeletedView {
        CRDeletedView { filename: self.filename@, version: self.version }
    }
}

impl DeepView for CRDeleted {
    type V = CRDeletedView;

    open spec fn deep_view(&self) -> CRDeletedView {
        self@
    }
}

impl CRDeleted {
    /// The line for `filename`, deleted at `version`.
    pub fn new(filename: &str, version: u128) -> (r: Self)
        ensures
            r@ == (CRDeletedView { filename: filename@, version }),
    {
        CRDeleted { filename: filename.to_owned(), version }
    }
}

/// Where a change request lives, relative to the package root.
pub open spec fn cr_path_of(cr: usize) -> Seq<char> {
    "-/"@ + decimal_of(cr as nat)
}

/// The path that marks the ledger of deleted files of a change request.
pub open spec fn cr_deleted_file_path_of(cr: usize) -> Seq<char> {
    cr_path_of(cr) + "/-/deleted.ftd"@
}

/// Where a change request lives, relative to the package root.
pub fn cr_path(cr: usize) -> (path: String)
    ensures
        path@ == cr_path_of(cr),
{
    let mut path = "-/".to_owned();
    path.append(decimal(cr as u128).as_str());
    path
}

/// The path that marks the ledger of deleted files of a change request.
pub fn cr_deleted_file_path(cr: usize) -> (path: String)
    ensures
        path@ == cr_deleted_file_path_of(cr),
{
    let mut path = cr_path(cr);
    path.append("/-/deleted.ftd");
    path
}

/// Whether the ledger has a line for `file`.
pub open spec fn ledger_names(ledger: Seq<CRDeletedView>, file: Seq<char>) -> bool {
    exists|i: int| 0 <= i < ledger.len() && (#[trigger] ledger[i]).filename == file
}

/// What is reported of a file that the remote manifest does not hold.
pub open spec fn not_in_remote_manifest(file: Seq<char>) -> Seq<char> {
    file + " is not present in remote manifest."@
}

/// What is reported of a file that the change request deletes already.
pub open spec fn already_deleted(file: Seq<char>, cr: usize) -> Seq<char> {
    file + " is already deleted in CR#"@ + decimal_of(cr as nat)
}

/// The workspace entry that marks the ledger of a change request.
pub open spec fn ledger_marker(cr: usize) -> WorkspaceEntryView {
    WorkspaceEntryView {
        filename: cr_deleted_file_path_of(cr),
        deleted: false,
        version: None,
        cr: Some(cr),
    }
}

/// What deleting `file` in change request `cr` comes to: the ledger and the
/// workspace after it, or the error it is refused with.
pub open spec fn cr_rm_result(
    manifest: Map<Seq<char>, FileEditView>,
    ledger: Seq<CRDeletedView>,
    workspace: Map<Seq<char>, WorkspaceEntryView>,
    file: Seq<char>,
    cr: usize,
) -> Result<(Seq<CRDeletedView>, Map<Seq<char>, WorkspaceEntryView>), ErrorView> {
    if !manifest.contains_key(file) {
        Err(ErrorView::UsageError { message: not_in_remote_manifest(file) })
    } else if ledger_names(ledger, file) {
        Err(ErrorView::UsageError { message: already_deleted(file, cr) })
    } else {
        Ok(
            (
                ledger.push(CRDeletedView { filename: file, version: manifest[file].version }),
                if workspace.contains_key(cr_deleted_file_path_of(cr)) {
                    workspace
                } else {
                    workspace.insert(cr_deleted_file_path_of(cr), ledger_marker(cr))
                },
            ),
        )
    }
}

/// Deletes `file` in change request `cr`: a line with the file and its
/// version in the remote manifest is added at the end of `deleted_files`,
/// the ledger of the change request, and the workspace gets the entry that
/// marks the ledger, unless it has it.
///
/// It fails, and changes nothing, where the remote manifest does not hold
/// the file, and where the ledger names it already.
pub fn cr_rm(
    remote_manifest: &FileMap<FileEdit>,
    deleted_files: &mut Vec<CRDeleted>,
    workspace: &mut Workspace,
    file: &str,
    cr: usize,
) -> (r: Result<(), Error>)
    requires
        remote_manifest.wf(),
        old(workspace).wf(),
    ensures
        final(workspace).wf(),
        match cr_rm_result(
            remote_manifest.deep_view(),
            old(deleted_files).deep_view(),
            old(workspace)@,
            file@,
            cr,
        ) {
            Ok((ledger, entries)) => r is Ok && final(deleted_files).deep_view() == ledger
                && final(workspace)@ == entries,
            Err(e) => r is Err && r->Err_0@ == e && final(deleted_files).deep_view() == old(
                deleted_files,
            ).deep_view() && final(workspace)@ == old(workspace)@,
        },
{
    let file_edit = match remote_manifest.get(file) {
        Some(file_edit) => file_edit,
        None => {
            let mut message = file.to_owned();
            message.append(" is not present in remote manifest.");
            return Err(Error::UsageError { message });
        },
    };
    let mut i: usize = 0;
    while i < deleted_files.len()
        invariant
            i <= deleted_files.len(),
            *deleted_files == *old(deleted_files),
            *workspace == *old(workspace),
            workspace.wf(),
            remote_manifest.deep_view().contains_key(file@),
            remote_manifest.deep_view()[file@] == file_edit@,
            forall|j: int| 0 <= j < i ==> (#[trigger] deleted_files.deep_view()[j]).filename != file@,
        decreases deleted_files.len() - i,
    {
        if str_equal(deleted_files[i].filename.as_str(), file) {
            assert(deleted_files.deep_view()[i as int].filename == file@);
            let mut message = file.to_owned();
            message.append(" is already deleted in CR#");
            message.append(decimal(cr as u128).as_str());
            return usage_error(message);
        }
        i += 1;
    }
    deleted_files.push(CRDeleted::new(file, file_edit.version));
    assert(deleted_files.deep_view() =~= old(deleted_files).deep_view().push(
        CRDeletedView { filename: file@, version: file_edit.version },
    ));
    let marker = cr_deleted_file_path(cr);
    if !workspace.contains_key(marker.as_str()) {
        workspace.put(WorkspaceEntry { filename: marker, deleted: false, version: None, cr: Some(cr) });
    }
    Ok(())
}

/// A change request deletes a file once. Where deleting `file` in a change
/// request succeeds, the ledger gains one line, the one of the file, at its
/// end; and deleting the file again, on the ledger and the workspace that the
/// first deletion left, is refused as a usage error.
pub proof fn lemma_cr_deletes_once(
    manifest: Map<Seq<char>, FileEditView>,
    ledger: Seq<CRDeletedView>,
    workspace: Map<Seq<char>, WorkspaceEntryView>,
    file: Seq<char>,
    cr: usize,
)
    requires
        cr_rm_result(manifest, ledger, workspace, file, cr) is Ok,
    ensures
        ({
            let first = cr_rm_result(manifest, ledger, workspace, file, cr)->Ok_0;
            &&& first.0.len() == ledger.len() + 1
            &&& first.0.drop_last() == ledger
            &&& first.0.last().filename == file
            &&& cr_rm_result(manifest, first.0, first.1, file, cr) == Err::<
                (Seq<CRDeletedView>, Map<Seq<char>, WorkspaceEntryView>),
                ErrorView,
            >(ErrorView::UsageError { message: already_deleted(file, cr) })
        }),
{
    let first = cr_rm_result(manifest, ledger, workspace, file, cr)->Ok_0;
    assert(first.0.drop_last() =~= ledger);
    assert(first.0[ledger.len() as int].filename == file);
}

/// The text of the record of a change request.
pub open spec fn cr_about_text(about: CRAboutView) -> Seq<char> {
    let start = match about.title {
        Some(title) => "-- import: fpm\n\n-- fpm.cr-about: "@ + title,
        None => "-- import: fpm\n\n-- fpm.cr-about:"@,
    };
    start + "\ncr-number: "@ + decimal_of(about.cr_number as nat) + "\nopen: "@ + (if about.open {
        "true"@
    } else {
        "false"@
    })
}

/// Writes the record of a change request. The caller replaces the whole
/// record with this text.
pub fn create_cr_about(about: &CRAbout) -> (text: String)
    ensures
        text@ == cr_about_text(about@),
{
    let mut text = "-- import: fpm\n\n-- fpm.cr-about:".to_owned();
    match &about.title {
        Some(title) => {
            let mut with_title = "-- import: fpm\n\n-- fpm.cr-about: ".to_owned();
            with_title.append(title.as_str());
            text = with_title;
        },
        None => {},
    }
    text.append("\ncr-number: ");
    text.append(decimal(about.cr_number as u128).as_str());
    text.append("\nopen: ");
    if about.open {
        text.append("true");
    } else {
        text.append("false");
    }
    text
}

/// The text of the ledger of a change request: the import line, then a
/// record for each deleted file, in the order of the ledger.
pub open spec fn deleted_files_text(ledger: Seq<CRDeletedView>) -> Seq<char>
    decreases ledger.len(),
{
    if ledger.len() == 0 {
        "-- import: fpm"@
    } else {
        deleted_files_text(ledger.drop_last()) + "\n\n-- fpm.cr-deleted: "@
            + ledger.last().filename + "\nversion: "@ + decimal_of(ledger.last().version as nat)
    }
}

/// Writes the ledger of a change request. The caller replaces the whole
/// ledger with this text.
pub fn create_deleted_files(deleted_files: &[CRDeleted]) -> (text: String)
    ensures
        text@ == deleted_files_text(deleted_files.deep_view()),
{
    let mut text = "-- import: fpm".to_owned();
    let mut i: usize = 0;
    while i < deleted_files.len()
        invariant
            i <= deleted_files.len(),
            text@ == deleted_files_text(deleted_files.deep_view().take(i as int)),
        decreases deleted_files.len() - i,
    {
        proof {
            let next = deleted_files.deep_view().take(i + 1);
            assert(next.drop_last() =~= deleted_files.deep_view().take(i as int));
            assert(next.last() == deleted_files[i as int]@);
        }
        text.append("\n\n-- fpm.cr-deleted: ");
        text.append(deleted_files[i].filename.as_str());
        text.append("\nversion: ");
        text.append(decimal(deleted_files[i].version).as_str());
        i += 1;
    }
    assert(deleted_files.deep_view().take(deleted_files.len() as int)
        =~= deleted_files.deep_view());
    text
}

} // verus!
