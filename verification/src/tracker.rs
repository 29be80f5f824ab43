//! Track records: which version of a source file a derived file was last
//! brought in line with.

use crate::error::{Error, ErrorView};
use crate::file_map::FileMap;
use crate::text::{decimal, decimal_of};
use vstd::string::*;
use vstd::prelude::*;

verus! {

/// A link from a derived file to the file it tracks.
#[derive(Debug)]
pub struct Track {
    /// The name of the tracked file.
    pub filename: String,
    pub package: Option<String>,
    pub version: Option<String>,
    pub other_timestamp: Option<u128>,
    /// The derived file's own version when the record was written.
    pub self_timestamp: u128,
    /// The highest version of the tracked file that the derived file has taken in.
    pub last_merged_version: Option<u128>,
}

/// A `Track`, as the contracts speak of it.
pub struct TrackView {
    pub filename: Seq<char>,
    pub package: Option<Seq<char>>,
    pub version: Option<Seq<char>>,
    pub other_timestamp: Option<u128>,
    pub self_timestamp: u128,
    pub last_merged_version: Option<u128>,
}

impl View for Track {
    type V = TrackView;

    open spec fn view(&self) -> TrackView {
        TrackView {
            filename: self.filename@,
            package: self.package.deep_view(),
            version: self.version.deep_view(),
            other_timestamp: self.other_timestamp,
            self_timestamp: self.self_timestamp,
            last_merged_version: self.last_merged_version,
        }
    }
}

impl DeepView for Track {
    type V = TrackView;

    open spec fn deep_view(&self) -> TrackView {
        self@
    }
}

/// A copy of an optional string.
pub fn copy_of_optional(text: &Option<String>) -> (r: Option<String>)
    ensures
        r.deep_view() == text.deep_view(),
{
    match text {
        Some(s) => Some(s.clone()),
        None => None,
    }
}

impl Clone for Track {
    fn clone(&self) -> (r: Self)
        ensures
            r@ == self@,
    {
        Track {
            filename: self.filename.clone(),
            package: copy_of_optional(&self.package),
            version: copy_of_optional(&self.version),
            other_timestamp: self.other_timestamp,
            self_timestamp: self.self_timestamp,
            last_merged_version: self.last_merged_version,
        }
    }
}

/// The map that a list of track records stands for: each tracked file name
/// with its last record.
pub open spec fn tracks_of(records: Seq<TrackView>) -> Map<Seq<char>, TrackView>
    decreases records.len(),
{
    if records.len() == 0 {
        Map::empty()
    } else {
        tracks_of(records.drop_last()).insert(records.last().filename, records.last())
    }
}

/// The tracks of one document, from the records of its track file. A document
/// without a track file (`None`) tracks nothing.
pub fn get_tracks(records: Option<Vec<Track>>) -> (tracks: FileMap<Track>)
    ensures
        tracks.wf(),
        tracks.deep_view() == match records {
            Some(list) => tracks_of(list.deep_view()),
            None => Map::empty(),
        },
{
    let mut tracks: FileMap<Track> = FileMap::new();
    assert(tracks.deep_view() =~= Map::<Seq<char>, TrackView>::empty());
    if let Some(list) = records {
        let mut i: usize = 0;
        while i < list.len()
            invariant
                i <= list.len(),
                tracks.wf(),
                tracks.deep_view() == tracks_of(list.deep_view().take(i as int)),
            decreases list.len() - i,
        {
            proof {
                let next = list.deep_view().take(i + 1);
                assert(next.drop_last() =~= list.deep_view().take(i as int));
                assert(next.last() == list[i as int]@);
            }
            let ghost before = tracks;
            let record = list[i].clone();
            tracks.insert(list[i].filename.clone(), record);
            assert(tracks.deep_view() =~= before.deep_view().insert(list[i as int].filename@, record@));
            i += 1;
        }
        assert(list.deep_view().take(list.len() as int) =~= list.deep_view());
    }
    tracks
}

/// The record with which `whom` is tracked from a file whose own version is
/// `self_timestamp`, before anything was merged.
pub open spec fn fresh_track(whom: Seq<char>, self_timestamp: u128) -> TrackView {
    TrackView {
        filename: whom,
        package: None,
        version: None,
        other_timestamp: None,
        self_timestamp,
        last_merged_version: None,
    }
}

/// What is reported of a file that has no snapshot yet.
pub open spec fn not_synced(file: Seq<char>) -> Seq<char> {
    file + " is not synced yet. suggestion: Run `fpm sync "@ + file + "` to sync the file"@
}

/// What is reported where `who` does not track `whom`.
pub open spec fn not_tracked(who: Seq<char>, whom: Seq<char>) -> Seq<char> {
    whom + " is not being tracked by "@ + who
}

/// The records of the track file of `who`; none where there is no such file.
pub open spec fn records_of(
    tracks: Map<Seq<char>, Map<Seq<char>, TrackView>>,
    who: Seq<char>,
) -> Map<Seq<char>, TrackView> {
    if tracks.contains_key(who) {
        tracks[who]
    } else {
        Map::empty()
    }
}

/// What starting to track `whom` from `who` comes to: the tracks after it,
/// or the error it is refused with. `own` are the snapshots of the package
/// of `who`, `sources` those of the package of `whom`.
pub open spec fn start_tracking_result(
    tracks: Map<Seq<char>, Map<Seq<char>, TrackView>>,
    own: Map<Seq<char>, u128>,
    sources: Map<Seq<char>, u128>,
    who: Seq<char>,
    whom: Seq<char>,
) -> Result<Map<Seq<char>, Map<Seq<char>, TrackView>>, ErrorView> {
    if !sources.contains_key(whom) {
        Err(ErrorView::UsageError { message: not_synced(whom) })
    } else if !own.contains_key(who) {
        Err(ErrorView::UsageError { message: not_synced(who) })
    } else if records_of(tracks, who).contains_key(whom) {
        Ok(tracks)
    } else {
        Ok(tracks.insert(who, records_of(tracks, who).insert(whom, fresh_track(whom, own[who]))))
    }
}

/// What marking `who` as up to date with `whom` comes to: the tracks after
/// it, or the error it is refused with.
pub open spec fn mark_up_to_date_result(
    tracks: Map<Seq<char>, Map<Seq<char>, TrackView>>,
    sources: Map<Seq<char>, u128>,
    who: Seq<char>,
    whom: Seq<char>,
) -> Result<Map<Seq<char>, Map<Seq<char>, TrackView>>, ErrorView> {
    if !records_of(tracks, who).contains_key(whom) {
        Err(ErrorView::UsageError { message: not_tracked(who, whom) })
    } else if !sources.contains_key(whom) {
        Err(ErrorView::UsageError { message: not_synced(whom) })
    } else {
        Ok(
            tracks.insert(
                who,
                tracks[who].insert(
                    whom,
                    TrackView {
                        other_timestamp: Some(sources[whom]),
                        last_merged_version: Some(sources[whom]),
                        ..tracks[who][whom]
                    },
                ),
            ),
        )
    }
}

/// The tracks are well formed, each track file among them too.
pub open spec fn tracks_wf(tracks: FileMap<FileMap<Track>>) -> bool {
    &&& tracks.wf()
    &&& forall|f: Seq<char>| tracks@.contains_key(f) ==> (#[trigger] tracks@[f]).wf()
}

fn not_synced_error(file: &str) -> (e: Error)
    ensures
        e@ == (ErrorView::UsageError { message: not_synced(file@) }),
{
    let mut message = file.to_owned();
    message.append(" is not synced yet. suggestion: Run `fpm sync ");
    message.append(file);
    message.append("` to sync the file");
    Error::UsageError { message }
}

/// Takes the track file of `who` out of `tracks`; an empty one where there is none.
fn take_records(tracks: &mut FileMap<FileMap<Track>>, who: &str) -> (records: FileMap<Track>)
    requires
        tracks_wf(*old(tracks)),
    ensures
        tracks_wf(*final(tracks)),
        records.wf(),
        records.deep_view() == records_of(old(tracks).deep_view(), who@),
        final(tracks)@ == old(tracks)@.remove(who@),
{
    match tracks.remove(who) {
        Some(records) => records,
        None => {
            let records: FileMap<Track> = FileMap::new();
            assert(records.deep_view() =~= Map::<Seq<char>, TrackView>::empty());
            records
        },
    }
}

/// Starts to track `whom` from `who`: the track file of `who` gets a record
/// for `whom` that pins the version of `who` itself, `own_snapshots[who]`, and
/// has no merged version yet. Where `who` tracks `whom` already, nothing
/// changes; the result tells whether a record was made.
///
/// It fails, and changes nothing, where `whom` has no snapshot among
/// `source_snapshots`, and where `who` has none among `own_snapshots`.
pub fn start_tracking(
    tracks: &mut FileMap<FileMap<Track>>,
    own_snapshots: &FileMap<u128>,
    source_snapshots: &FileMap<u128>,
    who: &str,
    whom: &str,
) -> (r: Result<bool, Error>)
    requires
        tracks_wf(*old(tracks)),
        own_snapshots.wf(),
        source_snapshots.wf(),
    ensures
        tracks_wf(*final(tracks)),
        match start_tracking_result(
            old(tracks).deep_view(),
            own_snapshots@,
            source_snapshots@,
            who@,
            whom@,
        ) {
            Ok(after) => r is Ok && final(tracks).deep_view() == after && r->Ok_0
                == !records_of(old(tracks).deep_view(), who@).contains_key(whom@),
            Err(e) => r is Err && r->Err_0@ == e && final(tracks).deep_view() == old(
                tracks,
            ).deep_view(),
        },
{
    if !source_snapshots.contains_key(whom) {
        return Err(not_synced_error(whom));
    }
    let self_timestamp = match own_snapshots.get(who) {
        Some(v) => *v,
        None => {
            return Err(not_synced_error(who));
        },
    };
    let ghost before = tracks.deep_view();
    let had = tracks.contains_key(who);
    let mut records = take_records(tracks, who);
    let ghost taken = records.deep_view();
    let made = !records.contains_key(whom);
    if made {
        let record = Track {
            filename: whom.to_owned(),
            package: None,
            version: None,
            other_timestamp: None,
            self_timestamp,
            last_merged_version: None,
        };
        records.insert(whom.to_owned(), record);
        assert(records.deep_view() =~= taken.insert(whom@, fresh_track(whom@, self_timestamp)));
    }
    if made || had {
        tracks.insert(who.to_owned(), records);
        assert(tracks.deep_view() =~= before.insert(who@, records.deep_view()));
        if !made {
            assert(before.insert(who@, records.deep_view()) =~= before);
        }
    } else {
        assert(tracks.deep_view() =~= before);
    }
    Ok(made)
}

/// The file that `who` is marked against: `whom`, or the file of the same
/// name where none is given.
pub open spec fn marked_against(who: Seq<char>, whom: Option<Seq<char>>) -> Seq<char> {
    match whom {
        Some(file) => file,
        None => who,
    }
}

/// Marks `who` as up to date with the file it tracks: `whom`, or the file of
/// its own name where `whom` is `None`. The record of that file in the track
/// file of `who` gets the latest version of the file, from
/// `source_snapshots`, as its merged version.
///
/// It fails, and changes nothing, where `who` does not track the file, and
/// where the file has no snapshot.
pub fn mark_up_to_date(
    tracks: &mut FileMap<FileMap<Track>>,
    source_snapshots: &FileMap<u128>,
    who: &str,
    whom: Option<&str>,
) -> (r: Result<(), Error>)
    requires
        tracks_wf(*old(tracks)),
        source_snapshots.wf(),
    ensures
        tracks_wf(*final(tracks)),
        match mark_up_to_date_result(
            old(tracks).deep_view(),
            source_snapshots@,
            who@,
            marked_against(who@, whom.deep_view()),
        ) {
            Ok(after) => r is Ok && final(tracks).deep_view() == after,
            Err(e) => r is Err && r->Err_0@ == e && final(tracks).deep_view() == old(
                tracks,
            ).deep_view(),
        },
{
    let whom = match whom {
        Some(file) => file,
        None => who,
    };
    let tracking = match tracks.get(who) {
        Some(records) => records.contains_key(whom),
        None => false,
    };
    if !tracking {
        let mut message = whom.to_owned();
        message.append(" is not being tracked by ");
        message.append(who);
        return Err(Error::UsageError { message });
    }
    let latest = match source_snapshots.get(whom) {
        Some(v) => *v,
        None => {
            return Err(not_synced_error(whom));
        },
    };
    let ghost before = tracks.deep_view();
    let mut records = take_records(tracks, who);
    let ghost taken = records.deep_view();
    let record = records.remove(whom).unwrap();
    let marked = Track {
        filename: record.filename,
        package: record.package,
        version: record.version,
        other_timestamp: Some(latest),
        self_timestamp: record.self_timestamp,
        last_merged_version: Some(latest),
    };
    records.insert(whom.to_owned(), marked);
    assert(records.deep_view() =~= taken.insert(whom@, marked@));
    tracks.insert(who.to_owned(), records);
    assert(tracks.deep_view() =~= before.insert(who@, records.deep_view()));
    Ok(())
}

/// A file that was marked as up to date is up to date. After `who` was
/// marked against the file of its own name, the record of `who` has the
/// latest version of the source as its merged version; so, as long as the
/// source stays at that version, a file with a translation is classified as
/// up to date.
pub proof fn lemma_marked_is_up_to_date(
    tracks: Map<Seq<char>, Map<Seq<char>, TrackView>>,
    sources: Map<Seq<char>, u128>,
    who: Seq<char>,
)
    requires
        mark_up_to_date_result(tracks, sources, who, who) is Ok,
    ensures
        ({
            let after = mark_up_to_date_result(tracks, sources, who, who)->Ok_0;
            &&& after.contains_key(who)
            &&& after[who].contains_key(who)
            &&& after[who][who].last_merged_version == Some(sources[who])
            &&& after[who][who].self_timestamp == tracks[who][who].self_timestamp
        }),
{
}

/// The record of one track, as a track file holds it: the tracked file and
/// the version of the tracking file, then each thing that is known.
pub open spec fn track_text(t: TrackView) -> Seq<char> {
    let start = "\n\n-- fpm.track: "@ + t.filename + "\nself-timestamp: "@ + decimal_of(
        t.self_timestamp as nat,
    );
    let with_package = match t.package {
        Some(p) => start + "\npackage: "@ + p,
        None => start,
    };
    let with_version = match t.version {
        Some(v) => with_package + "\nversion: "@ + v,
        None => with_package,
    };
    let with_other = match t.other_timestamp {
        Some(n) => with_version + "\nother-timestamp: "@ + decimal_of(n as nat),
        None => with_version,
    };
    match t.last_merged_version {
        Some(n) => with_other + "\nlast-merged-version: "@ + decimal_of(n as nat),
        None => with_other,
    }
}

/// The text of a track file with the given records: the import line, then
/// the records in the order given.
pub open spec fn tracks_text(records: Seq<TrackView>) -> Seq<char>
    decreases records.len(),
{
    if records.len() == 0 {
        "-- import: fpm"@
    } else {
        tracks_text(records.drop_last()) + track_text(records.last())
    }
}

/// Writes a track file. The caller replaces the whole file with this text.
pub fn create_tracks(tracks: &[Track]) -> (text: String)
    ensures
        text@ == tracks_text(tracks.deep_view()),
{
    let mut text = "-- import: fpm".to_owned();
    let mut i: usize = 0;
    while i < tracks.len()
        invariant
            i <= tracks.len(),
            text@ == tracks_text(tracks.deep_view().take(i as int)),
        decreases tracks.len() - i,
    {
        proof {
            let next = tracks.deep_view().take(i + 1);
            assert(next.drop_last() =~= tracks.deep_view().take(i as int));
            assert(next.last() == tracks[i as int]@);
        }
        let ghost before = text@;
        let t = &tracks[i];
        let mut record = "\n\n-- fpm.track: ".to_owned();
        record.append(t.filename.as_str());
        record.append("\nself-timestamp: ");
        record.append(decimal(t.self_timestamp).as_str());
        match &t.package {
            Some(p) => {
                record.append("\npackage: ");
                record.append(p.as_str());
            },
            None => {},
        }
        match &t.version {
            Some(v) => {
                record.append("\nversion: ");
                record.append(v.as_str());
            },
            None => {},
        }
        match t.other_timestamp {
            Some(n) => {
                record.append("\nother-timestamp: ");
                record.append(decimal(n).as_str());
            },
            None => {},
        }
        match t.last_merged_version {
            Some(n) => {
                record.append("\nlast-merged-version: ");
                record.append(decimal(n).as_str());
            },
            None => {},
        }
        assert(record@ =~= track_text(t@));
        text.append(record.as_str());
        i += 1;
    }
    assert(tracks.deep_view().take(tracks.len() as int) =~= tracks.deep_view());
    text
}

} // verus!
