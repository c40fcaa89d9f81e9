//! The directory scanner: walks a root, classifies every regular file by its
//! byte content, records a progress event per visited file, and returns the
//! qualifying entries — grouped by show directory or flat for movies — with
//! a probing plan for the files the caller does not already know.

use vstd::prelude::*;
use crate::events::{EventBus, EventView, emit_global};
use crate::fswalk::{WalkItem, list_dir, path_is_dir, walk_tree};
use crate::scan_core::{
    MediaEntry, SourceFile, build_entries, entries_view, files_view, groups_of, show_names,
};
use crate::laws::entry_comes_from_file;
use crate::sniff::sniff_path;
use crate::text::{concat2, seq_has_str, strings_view};

verus! {

/// Why a scan failed before producing anything.
pub enum ScanError {
    /// The root does not exist or is not a directory.
    DirNotFound,
    /// The root's children could not be listed; the text is the underlying
    /// error.
    ReadDir(String),
}

impl ScanError {
    /// The human-readable error string handed to the front end.
    pub fn message(&self) -> (r: String)
        ensures
            match *self {
                ScanError::DirNotFound => r@ == "Directory does not exist!"@,
                ScanError::ReadDir(ref m) => r@ == m@,
            },
    {
        match self {
            ScanError::DirNotFound => "Directory does not exist!".to_owned(),
            ScanError::ReadDir(m) => m.clone(),
        }
    }
}

/// A show scan's result: the names of the show directories that yielded at
/// least one qualifying episode, and the episode entries themselves.
pub struct ShowScan {
    pub show_dir_names: Vec<String>,
    pub episode_files: Vec<MediaEntry>,
}

/// What every event recorded by a scan looks like: the scan's event name and
/// a message naming the visited path.
pub open spec fn is_scan_event(e: EventView) -> bool {
    e.name == "loading-event"@ && exists|p: Seq<char>| e.message == "Scanning "@ + p
}

/// What a scan owes of its entries, whatever the disk held: durations start
/// empty, and an entry is marked for probing exactly when its pathname is not
/// in the known set.
pub open spec fn scan_entries_fresh(entries: Seq<crate::scan_core::EntrySpec>, known: Seq<Seq<char>>) -> bool {
    forall|i: int|
        0 <= i < entries.len() ==> {
            &&& (#[trigger] entries[i]).duration == Seq::<char>::empty()
            &&& entries[i].needs_probe == !seq_has_str(known, entries[i].pathname)
        }
}

/// Visits every readable regular file under `group_root`, records one
/// progress event naming it, sniffs its bytes, and appends it to `files`
/// under the given show group.
fn collect_files(
    group_root: &str,
    group: &Option<String>,
    files: &mut Vec<SourceFile>,
    bus: &mut EventBus,
)
    ensures
        final(bus)@.len() >= old(bus)@.len(),
        forall|k: int| 0 <= k < old(bus)@.len() ==> final(bus)@[k] == old(bus)@[k],
        forall|k: int|
            old(bus)@.len() <= k < final(bus)@.len() ==> is_scan_event(#[trigger] final(bus)@[k]),
        final(files)@.len() >= old(files)@.len(),
        forall|k: int| 0 <= k < old(files)@.len() ==> final(files)@[k] == old(files)@[k],
        forall|k: int|
            old(files)@.len() <= k < final(files)@.len() ==> (#[trigger] final(files)@[k])@.group
                == crate::scan_core::opt_string_view(*group),
{
    let items = walk_tree(group_root);
    let mut i: usize = 0;
    while i < items.len()
        invariant
            bus@.len() >= old(bus)@.len(),
            forall|k: int| 0 <= k < old(bus)@.len() ==> bus@[k] == old(bus)@[k],
            forall|k: int| old(bus)@.len() <= k < bus@.len() ==> is_scan_event(#[trigger] bus@[k]),
            files@.len() >= old(files)@.len(),
            forall|k: int| 0 <= k < old(files)@.len() ==> files@[k] == old(files)@[k],
            forall|k: int|
                old(files)@.len() <= k < files@.len() ==> (#[trigger] files@[k])@.group
                    == crate::scan_core::opt_string_view(*group),
        decreases items@.len() - i,
    {
        match &items[i] {
            WalkItem::Found(e) => {
                if e.is_file {
                    let msg = concat2("Scanning ", e.pathname.as_str());
                    emit_global(bus, "loading-event", msg.as_str());
                    proof {
                        assert(is_scan_event(bus@.last()));
                    }
                    let mime = sniff_path(e.pathname.as_str());
                    let sf = SourceFile {
                        group: match group {
                            Some(g) => Some(g.clone()),
                            None => None,
                        },
                        filename: e.name.clone(),
                        pathname: e.pathname.clone(),
                        mime,
                    };
                    files.push(sf);
                }
            },
            WalkItem::Failed(_) => {
                // An unreadable subtree is a soft skip: the scan goes on.
            },
        }
        i += 1;
    }
}

/// Scans a TV directory: each immediate subdirectory of `tv_dir` is a
/// candidate show; every regular file under it is classified by content, and
/// the qualifying ones become episode entries. A show appears in
/// `show_dir_names` exactly when it yielded at least one episode. Entries of
/// files in `known_pathnames` are not marked for probing.
pub fn scan_shows(
    tv_dir: &str,
    known_pathnames: &Vec<String>,
    bus: &mut EventBus,
) -> (r: Result<ShowScan, ScanError>)
    ensures
        final(bus)@.len() >= old(bus)@.len(),
        forall|k: int| 0 <= k < old(bus)@.len() ==> final(bus)@[k] == old(bus)@[k],
        forall|k: int|
            old(bus)@.len() <= k < final(bus)@.len() ==> is_scan_event(#[trigger] final(bus)@[k]),
        match r {
            Ok(scan) => {
                &&& strings_view(scan.show_dir_names@) == groups_of(
                    entries_view(scan.episode_files@),
                )
                &&& scan_entries_fresh(
                    entries_view(scan.episode_files@),
                    strings_view(known_pathnames@),
                )
            },
            Err(_) => final(bus)@ == old(bus)@,
        },
{
    if !path_is_dir(tv_dir) {
        return Err(ScanError::DirNotFound);
    }
    let children = match list_dir(tv_dir) {
        Ok(c) => c,
        Err(m) => { return Err(ScanError::ReadDir(m)); },
    };
    let mut files: Vec<SourceFile> = Vec::new();
    let mut i: usize = 0;
    while i < children.len()
        invariant
            bus@.len() >= old(bus)@.len(),
            forall|k: int| 0 <= k < old(bus)@.len() ==> bus@[k] == old(bus)@[k],
            forall|k: int| old(bus)@.len() <= k < bus@.len() ==> is_scan_event(#[trigger] bus@[k]),
        decreases children@.len() - i,
    {
        let child = &children[i];
        if child.is_dir {
            let group = Some(child.name.clone());
            collect_files(child.pathname.as_str(), &group, &mut files, bus);
        }
        i += 1;
    }
    let entries = build_entries(&files, known_pathnames);
    let names = show_names(&entries);
    proof {
        crate::scan_core::lemma_scan_durations_empty(
            files_view(files@),
            strings_view(known_pathnames@),
        );
        crate::laws::lemma_scan_probe_flags(files_view(files@), strings_view(known_pathnames@));
    }
    Ok(ShowScan { show_dir_names: names, episode_files: entries })
}

/// Scans a movie directory: every regular file under `movie_dir` is
/// classified by content and the qualifying ones become flat entries with no
/// show group. Entries of files in `known_pathnames` are not marked for
/// probing.
pub fn scan_movies(
    movie_dir: &str,
    known_pathnames: &Vec<String>,
    bus: &mut EventBus,
) -> (r: Result<Vec<MediaEntry>, ScanError>)
    ensures
        final(bus)@.len() >= old(bus)@.len(),
        forall|k: int| 0 <= k < old(bus)@.len() ==> final(bus)@[k] == old(bus)@[k],
        forall|k: int|
            old(bus)@.len() <= k < final(bus)@.len() ==> is_scan_event(#[trigger] final(bus)@[k]),
        match r {
            Ok(movie_files) => {
                &&& scan_entries_fresh(
                    entries_view(movie_files@),
                    strings_view(known_pathnames@),
                )
                &&& forall|i: int|
                    0 <= i < movie_files@.len() ==> (#[trigger] movie_files@[i])@.show_group
                        matches None
            },
            Err(_) => final(bus)@ == old(bus)@,
        },
{
    if !path_is_dir(movie_dir) {
        return Err(ScanError::DirNotFound);
    }
    let mut files: Vec<SourceFile> = Vec::new();
    collect_files(movie_dir, &None, &mut files, bus);
    let entries = build_entries(&files, known_pathnames);
    proof {
        let fv = files_view(files@);
        let kv = strings_view(known_pathnames@);
        crate::scan_core::lemma_scan_durations_empty(fv, kv);
        crate::laws::lemma_scan_probe_flags(fv, kv);
        crate::laws::lemma_scan_entries_from_files(fv, kv);
        assert forall|i: int| 0 <= i < entries@.len() implies (#[trigger] entries@[i])@.show_group
            matches None by {
            assert(entries_view(entries@)[i] == entries@[i]@);
            assert(entry_comes_from_file(fv, kv, entries_view(entries@)[i]));
            let j = choose|j: int|
                0 <= j < fv.len() && crate::scan_core::file_qualifies(#[trigger] fv[j])
                    && entries_view(entries@)[i] == crate::scan_core::entry_for(fv[j], kv);
            assert(fv[j] == files@[j]@);
        }
    }
    Ok(entries)
}

} // verus!
