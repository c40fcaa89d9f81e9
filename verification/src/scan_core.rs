//! The scanner's decision core: which walked files become media entries,
//! which shows appear in the result, which entries still need a duration
//! probe, and how probe results are folded back in.
//!
//! Everything here is pure logic over plain values; the directory walk and
//! the byte sniffing hand their findings in as data.

use vstd::prelude::*;
use crate::mime::{ContentKind, classification_of, classify_sniffed};
use crate::text::{seq_has_str, strings_view, strings_have};

verus! {

/// The mathematical content of one walked file.
pub ghost struct FileView {
    /// The show directory the file sits under, absent for a movie scan.
    pub group: Option<Seq<char>>,
    pub filename: Seq<char>,
    pub pathname: Seq<char>,
    /// The mime type sniffed from the file's bytes, absent when the file was
    /// unreadable or unrecognized.
    pub mime: Option<Seq<char>>,
}

/// One regular file found by the walk, together with its sniffed mime type.
pub struct SourceFile {
    pub group: Option<String>,
    pub filename: String,
    pub pathname: String,
    pub mime: Option<String>,
}

/// The view of an optional owned string.
pub open spec fn opt_string_view(o: Option<String>) -> Option<Seq<char>> {
    match o {
        Some(s) => Some(s@),
        None => None,
    }
}

impl View for SourceFile {
    type V = FileView;

    open spec fn view(&self) -> FileView {
        FileView {
            group: opt_string_view(self.group),
            filename: self.filename@,
            pathname: self.pathname@,
            mime: opt_string_view(self.mime),
        }
    }
}

/// The views of a sequence of walked files.
pub open spec fn files_view(v: Seq<SourceFile>) -> Seq<FileView> {
    v.map_values(|f: SourceFile| f@)
}

/// The mathematical content of one media entry.
pub ghost struct EntrySpec {
    pub show_group: Option<Seq<char>>,
    pub filename: Seq<char>,
    pub pathname: Seq<char>,
    pub duration: Seq<char>,
    pub needs_probe: bool,
}

/// One qualifying media file in a scan result. `duration` is empty until a
/// probe result is folded in; `needs_probe` says whether the caller still has
/// to probe this file (false when its pathname was already known).
pub struct MediaEntry {
    pub show_group: Option<String>,
    pub filename: String,
    pub pathname: String,
    pub duration: String,
    pub needs_probe: bool,
}

impl View for MediaEntry {
    type V = EntrySpec;

    open spec fn view(&self) -> EntrySpec {
        EntrySpec {
            show_group: opt_string_view(self.show_group),
            filename: self.filename@,
            pathname: self.pathname@,
            duration: self.duration@,
            needs_probe: self.needs_probe,
        }
    }
}

/// The views of a sequence of media entries.
pub open spec fn entries_view(v: Seq<MediaEntry>) -> Seq<EntrySpec> {
    v.map_values(|e: MediaEntry| e@)
}

/// Whether a walked file qualifies for the scan result: its bytes were
/// sniffed and classified as video content. The file's name plays no part.
pub open spec fn file_qualifies(f: FileView) -> bool {
    classification_of(f.mime) == Some(ContentKind::Video)
}

/// The entry a qualifying file contributes: duration starts empty, and the
/// file is marked for probing exactly when its pathname is not yet known.
pub open spec fn entry_for(f: FileView, known: Seq<Seq<char>>) -> EntrySpec {
    EntrySpec {
        show_group: f.group,
        filename: f.filename,
        pathname: f.pathname,
        duration: Seq::<char>::empty(),
        needs_probe: !seq_has_str(known, f.pathname),
    }
}

/// The entries a scan produces from a walked listing: the qualifying files,
/// in walk order, each contributing `entry_for`.
pub open spec fn scan_view(files: Seq<FileView>, known: Seq<Seq<char>>) -> Seq<EntrySpec>
    decreases files.len(),
{
    if files.len() == 0 {
        Seq::<EntrySpec>::empty()
    } else {
        let rest = scan_view(files.drop_last(), known);
        if file_qualifies(files.last()) {
            rest.push(entry_for(files.last(), known))
        } else {
            rest
        }
    }
}

proof fn lemma_scan_view_step(files: Seq<FileView>, known: Seq<Seq<char>>, i: int)
    requires
        0 <= i < files.len(),
    ensures
        scan_view(files.take(i + 1), known) == if file_qualifies(files[i]) {
            scan_view(files.take(i), known).push(entry_for(files[i], known))
        } else {
            scan_view(files.take(i), known)
        },
{
    assert(files.take(i + 1).drop_last() =~= files.take(i));
    assert(files.take(i + 1).last() == files[i]);
}

/// Clones an optional owned string, keeping its view.
fn clone_opt_string(o: &Option<String>) -> (r: Option<String>)
    ensures
        opt_string_view(r) == opt_string_view(*o),
{
    match o {
        Some(s) => Some(s.clone()),
        None => None,
    }
}

/// Builds the media entries for a walked listing: exactly the files whose
/// sniffed mime type classifies as video, in walk order, each with an empty
/// duration and marked for probing unless its pathname is already known.
pub fn build_entries(files: &Vec<SourceFile>, known: &Vec<String>) -> (r: Vec<MediaEntry>)
    ensures
        entries_view(r@) == scan_view(files_view(files@), strings_view(known@)),
{
    let ghost fv = files_view(files@);
    let mut out: Vec<MediaEntry> = Vec::new();
    let mut i: usize = 0;
    proof {
        assert(fv.take(0) =~= Seq::<FileView>::empty());
        assert(entries_view(out@) =~= Seq::<EntrySpec>::empty());
    }
    while i < files.len()
        invariant
            i <= files@.len(),
            fv == files_view(files@),
            entries_view(out@) == scan_view(fv.take(i as int), strings_view(known@)),
        decreases files@.len() - i,
    {
        proof {
            lemma_scan_view_step(fv, strings_view(known@), i as int);
            assert(fv[i as int] == files@[i as int]@);
        }
        let f = &files[i];
        let kind = classify_sniffed(&f.mime);
        if matches!(kind, Some(ContentKind::Video)) {
            let needs = !strings_have(known, f.pathname.as_str());
            let e = MediaEntry {
                show_group: clone_opt_string(&f.group),
                filename: f.filename.clone(),
                pathname: f.pathname.clone(),
                duration: String::new(),
                needs_probe: needs,
            };
            proof {
                assert(e@ == entry_for(fv[i as int], strings_view(known@)));
            }
            out.push(e);
            proof {
                assert(entries_view(out@) =~= scan_view(fv.take(i + 1), strings_view(known@)));
            }
        } else {
            proof {
                assert(!file_qualifies(fv[i as int]));
            }
        }
        i += 1;
    }
    proof {
        assert(fv.take(files@.len() as int) =~= fv);
    }
    out
}

/// A fresh scan owes no durations: every entry starts with an empty one.
pub proof fn lemma_scan_durations_empty(files: Seq<FileView>, known: Seq<Seq<char>>)
    ensures
        forall|i: int|
            0 <= i < scan_view(files, known).len() ==> (#[trigger] scan_view(
                files,
                known,
            )[i]).duration == Seq::<char>::empty(),
    decreases files.len(),
{
    if files.len() > 0 {
        lemma_scan_durations_empty(files.drop_last(), known);
    }
}

/// The distinct show groups named by a sequence of entries, in order of first
/// appearance. A group with no entry never appears.
pub open spec fn groups_of(entries: Seq<EntrySpec>) -> Seq<Seq<char>>
    decreases entries.len(),
{
    if entries.len() == 0 {
        Seq::<Seq<char>>::empty()
    } else {
        let rest = groups_of(entries.drop_last());
        match entries.last().show_group {
            None => rest,
            Some(g) => if seq_has_str(rest, g) {
                rest
            } else {
                rest.push(g)
            },
        }
    }
}

proof fn lemma_groups_of_step(entries: Seq<EntrySpec>, i: int)
    requires
        0 <= i < entries.len(),
    ensures
        groups_of(entries.take(i + 1)) == match entries[i].show_group {
            None => groups_of(entries.take(i)),
            Some(g) => if seq_has_str(groups_of(entries.take(i)), g) {
                groups_of(entries.take(i))
            } else {
                groups_of(entries.take(i)).push(g)
            },
        },
{
    assert(entries.take(i + 1).drop_last() =~= entries.take(i));
    assert(entries.take(i + 1).last() == entries[i]);
}

/// Collects the distinct show-group names that the entries mention, in order
/// of first appearance.
pub fn show_names(entries: &Vec<MediaEntry>) -> (r: Vec<String>)
    ensures
        strings_view(r@) == groups_of(entries_view(entries@)),
{
    let ghost ev = entries_view(entries@);
    let mut names: Vec<String> = Vec::new();
    let mut i: usize = 0;
    proof {
        assert(ev.take(0) =~= Seq::<EntrySpec>::empty());
        assert(strings_view(names@) =~= Seq::<Seq<char>>::empty());
    }
    while i < entries.len()
        invariant
            i <= entries@.len(),
            ev == entries_view(entries@),
            strings_view(names@) == groups_of(ev.take(i as int)),
        decreases entries@.len() - i,
    {
        proof {
            lemma_groups_of_step(ev, i as int);
            assert(ev[i as int] == entries@[i as int]@);
        }
        match &entries[i].show_group {
            Some(g) => {
                if !strings_have(&names, g.as_str()) {
                    names.push(g.clone());
                    proof {
                        assert(strings_view(names@) =~= groups_of(ev.take(i + 1)));
                    }
                }
            },
            None => {},
        }
        i += 1;
    }
    proof {
        assert(ev.take(entries@.len() as int) =~= ev);
    }
    names
}

/// How many entries still need a duration probe.
pub open spec fn probe_count(entries: Seq<EntrySpec>) -> nat
    decreases entries.len(),
{
    if entries.len() == 0 {
        0
    } else {
        probe_count(entries.drop_last()) + if entries.last().needs_probe {
            1nat
        } else {
            0nat
        }
    }
}

/// The pathnames of the entries that still need a duration probe, in entry
/// order.
pub open spec fn probe_paths(entries: Seq<EntrySpec>) -> Seq<Seq<char>>
    decreases entries.len(),
{
    if entries.len() == 0 {
        Seq::<Seq<char>>::empty()
    } else {
        let rest = probe_paths(entries.drop_last());
        if entries.last().needs_probe {
            rest.push(entries.last().pathname)
        } else {
            rest
        }
    }
}

/// There are as many probe targets as entries needing a probe.
pub proof fn lemma_probe_paths_len(entries: Seq<EntrySpec>)
    ensures
        probe_paths(entries).len() == probe_count(entries),
    decreases entries.len(),
{
    if entries.len() > 0 {
        lemma_probe_paths_len(entries.drop_last());
    }
}

pub(crate) proof fn lemma_probe_step(entries: Seq<EntrySpec>, i: int)
    requires
        0 <= i < entries.len(),
    ensures
        probe_count(entries.take(i + 1)) == probe_count(entries.take(i)) + if entries[i].needs_probe {
            1nat
        } else {
            0nat
        },
        probe_paths(entries.take(i + 1)) == if entries[i].needs_probe {
            probe_paths(entries.take(i)).push(entries[i].pathname)
        } else {
            probe_paths(entries.take(i))
        },
{
    assert(entries.take(i + 1).drop_last() =~= entries.take(i));
    assert(entries.take(i + 1).last() == entries[i]);
}

/// Lists the pathnames the caller still has to probe, in entry order.
pub fn probe_targets(entries: &Vec<MediaEntry>) -> (r: Vec<String>)
    ensures
        strings_view(r@) == probe_paths(entries_view(entries@)),
        r@.len() == probe_count(entries_view(entries@)),
{
    let ghost ev = entries_view(entries@);
    let mut out: Vec<String> = Vec::new();
    let mut i: usize = 0;
    proof {
        assert(ev.take(0) =~= Seq::<EntrySpec>::empty());
        assert(strings_view(out@) =~= Seq::<Seq<char>>::empty());
        lemma_probe_paths_len(ev.take(0));
    }
    while i < entries.len()
        invariant
            i <= entries@.len(),
            ev == entries_view(entries@),
            strings_view(out@) == probe_paths(ev.take(i as int)),
            out@.len() == probe_count(ev.take(i as int)),
        decreases entries@.len() - i,
    {
        proof {
            lemma_probe_step(ev, i as int);
            assert(ev[i as int] == entries@[i as int]@);
        }
        if entries[i].needs_probe {
            out.push(entries[i].pathname.clone());
            proof {
                assert(strings_view(out@) =~= probe_paths(ev.take(i + 1)));
            }
        }
        i += 1;
    }
    proof {
        assert(ev.take(entries@.len() as int) =~= ev);
    }
    out
}

/// An entry after its probe came back: the duration is whatever the probe
/// printed — possibly the empty string, a soft failure — and nothing more is
/// owed for it.
pub open spec fn filled(e: EntrySpec, d: Seq<char>) -> EntrySpec {
    EntrySpec {
        show_group: e.show_group,
        filename: e.filename,
        pathname: e.pathname,
        duration: d,
        needs_probe: false,
    }
}

/// The entries after the probe results are folded in: the durations fill the
/// probe-marked entries in order, and every other entry stays as it was.
/// Meaningful when `durs` holds exactly `probe_count(entries)` results.
pub open spec fn apply_durs(entries: Seq<EntrySpec>, durs: Seq<Seq<char>>) -> Seq<EntrySpec>
    decreases entries.len(),
{
    if entries.len() == 0 {
        Seq::<EntrySpec>::empty()
    } else if entries.last().needs_probe {
        apply_durs(entries.drop_last(), durs.drop_last()).push(filled(entries.last(), durs.last()))
    } else {
        apply_durs(entries.drop_last(), durs).push(entries.last())
    }
}

proof fn lemma_apply_durs_step(entries: Seq<EntrySpec>, durs: Seq<Seq<char>>, i: int, j: int)
    requires
        0 <= i < entries.len(),
        j == probe_count(entries.take(i)),
        entries[i].needs_probe ==> j < durs.len(),
    ensures
        entries[i].needs_probe ==> apply_durs(entries.take(i + 1), durs.take(j + 1))
            == apply_durs(entries.take(i), durs.take(j)).push(filled(entries[i], durs[j])),
        !entries[i].needs_probe ==> apply_durs(entries.take(i + 1), durs.take(j))
            == apply_durs(entries.take(i), durs.take(j)).push(entries[i]),
{
    assert(entries.take(i + 1).drop_last() =~= entries.take(i));
    assert(entries.take(i + 1).last() == entries[i]);
    if entries[i].needs_probe {
        assert(durs.take(j + 1).drop_last() =~= durs.take(j));
        assert(durs.take(j + 1).last() == durs[j]);
    }
}

/// Taking more entries never lowers the probe count.
pub(crate) proof fn lemma_probe_count_monotone(entries: Seq<EntrySpec>, i: int, j: int)
    requires
        0 <= i <= j <= entries.len(),
    ensures
        probe_count(entries.take(i)) <= probe_count(entries.take(j)),
    decreases j - i,
{
    if i < j {
        lemma_probe_count_monotone(entries, i, j - 1);
        lemma_probe_step(entries, j - 1);
    }
}

/// Folds probe results into the entries: the `k`-th duration goes to the
/// `k`-th probe-marked entry, every entry survives, and entries that needed
/// no probe are returned untouched.
pub fn apply_durations(entries: &Vec<MediaEntry>, durations: &Vec<String>) -> (r: Vec<MediaEntry>)
    requires
        durations@.len() == probe_count(entries_view(entries@)),
    ensures
        entries_view(r@) == apply_durs(entries_view(entries@), strings_view(durations@)),
{
    let ghost ev = entries_view(entries@);
    let ghost dv = strings_view(durations@);
    let mut out: Vec<MediaEntry> = Vec::new();
    let mut i: usize = 0;
    let mut j: usize = 0;
    let dlen: usize = durations.len();
    proof {
        assert(ev.take(0) =~= Seq::<EntrySpec>::empty());
        assert(dv.take(0) =~= Seq::<Seq<char>>::empty());
        assert(entries_view(out@) =~= Seq::<EntrySpec>::empty());
    }
    while i < entries.len()
        invariant
            i <= entries@.len(),
            dlen == durations@.len(),
            j <= dlen,
            ev == entries_view(entries@),
            dv == strings_view(durations@),
            dv.len() == probe_count(ev),
            j == probe_count(ev.take(i as int)),
            entries_view(out@) == apply_durs(ev.take(i as int), dv.take(j as int)),
        decreases entries@.len() - i,
    {
        proof {
            assert(ev[i as int] == entries@[i as int]@);
            lemma_probe_step(ev, i as int);
            lemma_probe_count_monotone(ev, i + 1, ev.len() as int);
            assert(ev.take(ev.len() as int) =~= ev);
            lemma_apply_durs_step(ev, dv, i as int, j as int);
        }
        let e = &entries[i];
        if e.needs_probe {
            proof {
                assert(probe_count(ev.take(i + 1)) == j + 1nat);
                assert(j < durations@.len());
                assert(dv[j as int] == durations@[j as int]@);
            }
            let filled_entry = MediaEntry {
                show_group: clone_opt_string(&e.show_group),
                filename: e.filename.clone(),
                pathname: e.pathname.clone(),
                duration: durations[j].clone(),
                needs_probe: false,
            };
            proof {
                assert(filled_entry@ == filled(ev[i as int], dv[j as int]));
            }
            out.push(filled_entry);
            j += 1;
            proof {
                assert(entries_view(out@) =~= apply_durs(ev.take(i + 1), dv.take(j as int)));
            }
        } else {
            let kept = MediaEntry {
                show_group: clone_opt_string(&e.show_group),
                filename: e.filename.clone(),
                pathname: e.pathname.clone(),
                duration: e.duration.clone(),
                needs_probe: e.needs_probe,
            };
            proof {
                assert(kept@ == ev[i as int]);
            }
            out.push(kept);
            proof {
                assert(entries_view(out@) =~= apply_durs(ev.take(i + 1), dv.take(j as int)));
            }
        }
        i += 1;
    }
    proof {
        assert(ev.take(entries@.len() as int) =~= ev);
        assert(dv.take(j as int) =~= dv);
    }
    out
}

} // verus!
