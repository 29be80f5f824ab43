//! Snapshots: for each file of a package, the version it was last committed at.

use crate::file_map::FileMap;
use crate::text::{decimal, decimal_of, last_index_of, rsplit_once};
use vstd::prelude::*;
use vstd::string::*;

verus! {

/// The latest committed version of one file.
#[derive(Debug)]
pub struct Snapshot {
    /// The file's name, relative to the package root.
    pub filename: String,
    pub timestamp: u128,
}

/// A `Snapshot`, as the contracts speak of it.
pub struct SnapshotView {
    pub filename: Seq<char>,
    pub timestamp: u128,
}

impl View for Snapshot {
    type V = SnapshotView;

    open spec fn view(&self) -> SnapshotView {
        SnapshotView { filename: self.filename@, timestamp: self.timestamp }
    }
}

impl DeepView for Snapshot {
    type V = SnapshotView;

    open spec fn deep_view(&self) -> SnapshotView {
        self@
    }
}

/// The map that a list of snapshot records stands for: each file name with
/// the timestamp of its last record.
pub open spec fn latest_of(records: Seq<SnapshotView>) -> Map<Seq<char>, u128>
    decreases records.len(),
{
    if records.len() == 0 {
        Map::empty()
    } else {
        latest_of(records.drop_last()).insert(records.last().filename, records.last().timestamp)
    }
}

/// The latest snapshots of a package, from the records of its manifest.
/// A package without a manifest (`None`) has no snapshot yet.
pub fn get_latest_snapshots(records: Option<Vec<Snapshot>>) -> (snapshots: FileMap<u128>)
    ensures
        snapshots.wf(),
        snapshots@ == match records {
            Some(list) => latest_of(list.deep_view()),
            None => Map::empty(),
        },
{
    let mut snapshots: FileMap<u128> = FileMap::new();
    if let Some(list) = records {
        let mut i: usize = 0;
        while i < list.len()
            invariant
                i <= list.len(),
                snapshots.wf(),
                snapshots@ == latest_of(list.deep_view().take(i as int)),
            decreases list.len() - i,
        {
            proof {
                let next = list.deep_view().take(i + 1);
                assert(next.drop_last() =~= list.deep_view().take(i as int));
                assert(next.last() == list[i as int]@);
            }
            snapshots.insert(list[i].filename.clone(), list[i].timestamp);
            i += 1;
        }
        assert(list.deep_view().take(list.len() as int) =~= list.deep_view());
    }
    snapshots
}

/// The text of the manifest that holds the given snapshots: the import line,
/// then one record for each snapshot, in the order given.
pub open spec fn manifest_text(records: Seq<SnapshotView>) -> Seq<char>
    decreases records.len(),
{
    if records.len() == 0 {
        "-- import: fpm"@
    } else {
        manifest_text(records.drop_last()) + "\n\n-- fpm.snapshot: "@ + records.last().filename
            + "\ntimestamp: "@ + decimal_of(records.last().timestamp as nat)
    }
}

/// Writes the manifest of the latest snapshots. The caller replaces the whole
/// manifest file with this text.
pub fn create_latest_snapshots(snapshots: &[Snapshot]) -> (text: String)
    ensures
        text@ == manifest_text(snapshots.deep_view()),
{
    let mut text = "-- import: fpm".to_owned();
    let mut i: usize = 0;
    while i < snapshots.len()
        invariant
            i <= snapshots.len(),
            text@ == manifest_text(snapshots.deep_view().take(i as int)),
        decreases snapshots.len() - i,
    {
        proof {
            let next = snapshots.deep_view().take(i + 1);
            assert(next.drop_last() =~= snapshots.deep_view().take(i as int));
            assert(next.last() == snapshots[i as int]@);
        }
        text.append("\n\n-- fpm.snapshot: ");
        text.append(snapshots[i].filename.as_str());
        text.append("\ntimestamp: ");
        text.append(decimal(snapshots[i].timestamp).as_str());
        i += 1;
    }
    assert(snapshots.deep_view().take(snapshots.len() as int) =~= snapshots.deep_view());
    text
}

/// The name under which the history holds `path` at the version
/// `timestamp`: the timestamp stands before the extension, or at the end
/// where the path has no extension.
pub open spec fn snapshot_id_of(path: Seq<char>, timestamp: u128) -> Seq<char> {
    match last_index_of(path, '.') {
        Some(i) => path.take(i) + "."@ + decimal_of(timestamp as nat) + "."@ + path.skip(i + 1),
        None => path + "."@ + decimal_of(timestamp as nat),
    }
}

/// The name under which the history holds `path` at the version `timestamp`.
pub fn snapshot_id(path: &str, timestamp: u128) -> (id: String)
    ensures
        id@ == snapshot_id_of(path@, timestamp),
{
    match rsplit_once(path, '.') {
        Some((name, ext)) => {
            let mut id = name;
            id.append(".");
            id.append(decimal(timestamp).as_str());
            id.append(".");
            id.append(ext.as_str());
            id
        },
        None => {
            let mut id = path.to_owned();
            id.append(".");
            id.append(decimal(timestamp).as_str());
            id
        },
    }
}

/// The name of the track file of the document `id`.
pub fn track_file(id: &str) -> (name: String)
    ensures
        name@ == id@ + ".track"@,
{
    let mut name = id.to_owned();
    name.append(".track");
    name
}

} // verus!
