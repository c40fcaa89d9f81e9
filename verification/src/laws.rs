//! Properties of the scan core that relate several of its functions: what a
//! rescan of an unchanged tree yields, where show names can come from, how
//! classification treats file names, and what folding probe results in
//! preserves.

use vstd::prelude::*;
use crate::mime::classification_of;
use crate::scan_core::{
    EntrySpec, FileView, apply_durs, entry_for, file_qualifies, filled, groups_of, probe_count,
    scan_view,
};
use crate::text::seq_has_str;

verus! {

/// Classification never looks at a file's name: two walked files with the
/// same sniffed mime type qualify alike, whatever their filenames, pathnames
/// or directories — a video file renamed to a text extension still qualifies.
pub proof fn lemma_classification_ignores_name(f1: FileView, f2: FileView)
    requires
        f1.mime == f2.mime,
    ensures
        file_qualifies(f1) == file_qualifies(f2),
        classification_of(f1.mime) == classification_of(f2.mime),
{
}

proof fn lemma_has_push(s: Seq<Seq<char>>, x: Seq<char>, y: Seq<char>)
    ensures
        seq_has_str(s.push(x), y) <==> (seq_has_str(s, y) || x == y),
{
    if seq_has_str(s, y) {
        let i = choose|i: int| 0 <= i < s.len() && s[i] == y;
        assert(s.push(x)[i] == y);
    }
    if x == y {
        assert(s.push(x)[s.len() as int] == y);
    }
    if seq_has_str(s.push(x), y) {
        let i = choose|i: int| 0 <= i < s.push(x).len() && s.push(x)[i] == y;
        if i < s.len() {
            assert(s[i] == y);
        }
    }
}

/// Whether some file in the listing qualifies and would contribute exactly
/// the entry `e`.
pub open spec fn entry_comes_from_file(
    files: Seq<FileView>,
    known: Seq<Seq<char>>,
    e: EntrySpec,
) -> bool {
    exists|j: int|
        0 <= j < files.len() && file_qualifies(#[trigger] files[j]) && e == entry_for(
            files[j],
            known,
        )
}

/// Every entry of a scan comes from a qualifying file of the walked listing:
/// files that fail classification contribute nothing.
pub proof fn lemma_scan_entries_from_files(files: Seq<FileView>, known: Seq<Seq<char>>)
    ensures
        forall|i: int|
            0 <= i < scan_view(files, known).len() ==> entry_comes_from_file(
                files,
                known,
                #[trigger] scan_view(files, known)[i],
            ),
    decreases files.len(),
{
    if files.len() > 0 {
        lemma_scan_entries_from_files(files.drop_last(), known);
        let prev = files.drop_last();
        let rest = scan_view(prev, known);
        assert forall|i: int| 0 <= i < scan_view(files, known).len() implies entry_comes_from_file(
            files,
            known,
            scan_view(files, known)[i],
        ) by {
            if i < rest.len() {
                assert(entry_comes_from_file(prev, known, rest[i]));
                let j = choose|j: int|
                    0 <= j < prev.len() && file_qualifies(#[trigger] prev[j]) && rest[i]
                        == entry_for(prev[j], known);
                assert(prev[j] == files[j]);
                assert(scan_view(files, known)[i] == rest[i]);
            } else {
                let j = files.len() - 1;
                assert(file_qualifies(files[j]));
                assert(scan_view(files, known)[i] == entry_for(files[j], known));
            }
        }
    }
}

/// Whether some entry names the show group `g`.
pub open spec fn some_entry_in_group(entries: Seq<EntrySpec>, g: Seq<char>) -> bool {
    exists|i: int| 0 <= i < entries.len() && #[trigger] entries[i].show_group == Some(g)
}

/// A show name appears in the grouped result exactly when some entry carries
/// it: a show directory that yielded no qualifying entry is dropped.
pub proof fn lemma_groups_membership(entries: Seq<EntrySpec>, g: Seq<char>)
    ensures
        seq_has_str(groups_of(entries), g) <==> some_entry_in_group(entries, g),
    decreases entries.len(),
{
    if entries.len() == 0 {
    } else {
        let prev = entries.drop_last();
        lemma_groups_membership(prev, g);
        let rest = groups_of(prev);
        match entries.last().show_group {
            None => {
                if some_entry_in_group(entries, g) {
                    let i = choose|i: int|
                        0 <= i < entries.len() && #[trigger] entries[i].show_group == Some(g);
                    assert(i < prev.len() && prev[i] == entries[i]);
                    assert(some_entry_in_group(prev, g));
                }
                if some_entry_in_group(prev, g) {
                    let i = choose|i: int|
                        0 <= i < prev.len() && #[trigger] prev[i].show_group == Some(g);
                    assert(entries[i].show_group == Some(g));
                }
            },
            Some(h) => {
                lemma_has_push(rest, h, g);
                if seq_has_str(groups_of(entries), g) {
                    if g == h {
                        assert(entries[entries.len() - 1].show_group == Some(g));
                    } else {
                        assert(seq_has_str(rest, g));
                        let i = choose|i: int|
                            0 <= i < prev.len() && #[trigger] prev[i].show_group == Some(g);
                        assert(entries[i].show_group == Some(g));
                    }
                }
                if some_entry_in_group(entries, g) {
                    let i = choose|i: int|
                        0 <= i < entries.len() && #[trigger] entries[i].show_group == Some(g);
                    if i < prev.len() {
                        assert(prev[i] == entries[i]);
                        assert(some_entry_in_group(prev, g));
                        assert(seq_has_str(rest, g));
                    } else {
                        assert(g == h);
                    }
                    if seq_has_str(rest, g) {
                    } else {
                        assert(g == h);
                    }
                }
            },
        }
    }
}

/// A name in a scan's show list always names a show directory that held at
/// least one qualifying video file; a show directory with none never appears.
pub proof fn lemma_show_list_names_qualifying_shows(
    files: Seq<FileView>,
    known: Seq<Seq<char>>,
    g: Seq<char>,
)
    requires
        seq_has_str(groups_of(scan_view(files, known)), g),
    ensures
        exists|j: int|
            0 <= j < files.len() && file_qualifies(#[trigger] files[j]) && files[j].group == Some(
                g,
            ),
{
    let entries = scan_view(files, known);
    lemma_groups_membership(entries, g);
    let i = choose|i: int| 0 <= i < entries.len() && #[trigger] entries[i].show_group == Some(g);
    lemma_scan_entries_from_files(files, known);
    assert(entry_comes_from_file(files, known, entries[i]));
    let j = choose|j: int|
        0 <= j < files.len() && file_qualifies(#[trigger] files[j]) && entries[i] == entry_for(
            files[j],
            known,
        );
    assert(files[j].group == Some(g));
}

/// How many files of a listing qualify as video content.
pub open spec fn qualifying_count(files: Seq<FileView>) -> nat
    decreases files.len(),
{
    if files.len() == 0 {
        0
    } else {
        qualifying_count(files.drop_last()) + if file_qualifies(files.last()) {
            1nat
        } else {
            0nat
        }
    }
}

/// A scan holds exactly one entry per qualifying file of the listing.
pub proof fn lemma_scan_counts_qualifying(files: Seq<FileView>, known: Seq<Seq<char>>)
    ensures
        scan_view(files, known).len() == qualifying_count(files),
    decreases files.len(),
{
    if files.len() > 0 {
        lemma_scan_counts_qualifying(files.drop_last(), known);
    }
}

/// No qualifying file is dropped: each one's entry stands somewhere in the
/// scan. Classification is the scan's only gate.
pub proof fn lemma_scan_keeps_every_qualifying(files: Seq<FileView>, known: Seq<Seq<char>>)
    ensures
        forall|j: int|
            0 <= j < files.len() && file_qualifies(#[trigger] files[j]) ==> exists|i: int|
                0 <= i < scan_view(files, known).len() && #[trigger] scan_view(files, known)[i]
                    == entry_for(files[j], known),
    decreases files.len(),
{
    if files.len() > 0 {
        lemma_scan_keeps_every_qualifying(files.drop_last(), known);
        let prev = files.drop_last();
        let rest = scan_view(prev, known);
        assert forall|j: int| 0 <= j < files.len() && file_qualifies(files[j]) implies exists|i: int|
            0 <= i < scan_view(files, known).len() && #[trigger] scan_view(files, known)[i]
                == entry_for(files[j], known) by {
            if j < files.len() - 1 {
                assert(prev[j] == files[j]);
                let i = choose|i: int|
                    0 <= i < rest.len() && #[trigger] rest[i] == entry_for(prev[j], known);
                assert(scan_view(files, known)[i] == entry_for(files[j], known));
            } else {
                assert(scan_view(files, known)[rest.len() as int] == entry_for(files[j], known));
            }
        }
    }
}

/// The show-name list never repeats a name.
pub proof fn lemma_groups_distinct(entries: Seq<EntrySpec>)
    ensures
        forall|i: int, j: int|
            0 <= i < j < groups_of(entries).len() ==> #[trigger] groups_of(entries)[i]
                != #[trigger] groups_of(entries)[j],
    decreases entries.len(),
{
    if entries.len() > 0 {
        lemma_groups_distinct(entries.drop_last());
        let rest = groups_of(entries.drop_last());
        assert forall|i: int, j: int| 0 <= i < j < groups_of(entries).len() implies #[trigger] groups_of(
            entries,
        )[i] != #[trigger] groups_of(entries)[j] by {
            match entries.last().show_group {
                None => {},
                Some(g) => {
                    if !seq_has_str(rest, g) {
                        if j < rest.len() {
                            assert(groups_of(entries)[i] == rest[i]);
                            assert(groups_of(entries)[j] == rest[j]);
                        } else {
                            assert(groups_of(entries)[j] == g);
                            assert(groups_of(entries)[i] == rest[i]);
                            assert(!seq_has_str(rest, g));
                        }
                    } else {
                        assert(groups_of(entries)[i] == rest[i]);
                        assert(groups_of(entries)[j] == rest[j]);
                    }
                },
            }
        }
    }
}

/// The known set decides only probing: two scans of the same listing have the
/// same length and, entry by entry, the same show group, filename, pathname
/// and duration.
pub proof fn lemma_scan_known_independent(
    files: Seq<FileView>,
    k1: Seq<Seq<char>>,
    k2: Seq<Seq<char>>,
)
    ensures
        scan_view(files, k1).len() == scan_view(files, k2).len(),
        forall|i: int|
            0 <= i < scan_view(files, k1).len() ==> {
                &&& (#[trigger] scan_view(files, k1)[i]).show_group == scan_view(files, k2)[i].show_group
                &&& scan_view(files, k1)[i].filename == scan_view(files, k2)[i].filename
                &&& scan_view(files, k1)[i].pathname == scan_view(files, k2)[i].pathname
                &&& scan_view(files, k1)[i].duration == scan_view(files, k2)[i].duration
            },
    decreases files.len(),
{
    if files.len() > 0 {
        lemma_scan_known_independent(files.drop_last(), k1, k2);
    }
}

proof fn lemma_groups_congruent(e1: Seq<EntrySpec>, e2: Seq<EntrySpec>)
    requires
        e1.len() == e2.len(),
        forall|i: int| 0 <= i < e1.len() ==> (#[trigger] e1[i]).show_group == e2[i].show_group,
    ensures
        groups_of(e1) == groups_of(e2),
    decreases e1.len(),
{
    if e1.len() > 0 {
        assert forall|i: int| 0 <= i < e1.drop_last().len() implies (#[trigger] e1.drop_last()[i]).show_group
            == e2.drop_last()[i].show_group by {
            assert(e1.drop_last()[i] == e1[i]);
            assert(e2.drop_last()[i] == e2[i]);
        }
        lemma_groups_congruent(e1.drop_last(), e2.drop_last());
        assert(e1[e1.len() - 1].show_group == e2[e2.len() - 1].show_group);
    }
}

/// The flag `needs_probe` of each scan entry means exactly that the entry's
/// pathname is not in the known set.
pub proof fn lemma_scan_probe_flags(files: Seq<FileView>, known: Seq<Seq<char>>)
    ensures
        forall|i: int|
            0 <= i < scan_view(files, known).len() ==> (#[trigger] scan_view(files, known)[i]).needs_probe
                == !seq_has_str(known, scan_view(files, known)[i].pathname),
    decreases files.len(),
{
    if files.len() > 0 {
        lemma_scan_probe_flags(files.drop_last(), known);
    }
}

/// Rescanning an unchanged listing, with the known set now holding exactly
/// the pathnames the first scan discovered, yields the identical grouping —
/// same entries, same show names — and marks no entry for re-probing.
pub proof fn lemma_rescan_idempotent(
    files: Seq<FileView>,
    first_known: Seq<Seq<char>>,
    second_known: Seq<Seq<char>>,
)
    requires
        forall|p: Seq<char>|
            #[trigger] seq_has_str(second_known, p) <==> exists|i: int|
                0 <= i < scan_view(files, first_known).len() && (#[trigger] scan_view(
                    files,
                    first_known,
                )[i]).pathname == p,
    ensures
        scan_view(files, second_known).len() == scan_view(files, first_known).len(),
        forall|i: int|
            0 <= i < scan_view(files, second_known).len() ==> {
                &&& (#[trigger] scan_view(files, second_known)[i]).show_group == scan_view(
                    files,
                    first_known,
                )[i].show_group
                &&& scan_view(files, second_known)[i].filename == scan_view(
                    files,
                    first_known,
                )[i].filename
                &&& scan_view(files, second_known)[i].pathname == scan_view(
                    files,
                    first_known,
                )[i].pathname
            },
        groups_of(scan_view(files, second_known)) == groups_of(scan_view(files, first_known)),
        forall|i: int|
            0 <= i < scan_view(files, second_known).len() ==> !(#[trigger] scan_view(
                files,
                second_known,
            )[i]).needs_probe,
{
    let s1 = scan_view(files, first_known);
    let s2 = scan_view(files, second_known);
    lemma_scan_known_independent(files, first_known, second_known);
    lemma_groups_congruent(s1, s2);
    lemma_scan_probe_flags(files, second_known);
    assert forall|i: int| 0 <= i < s2.len() implies !(#[trigger] s2[i]).needs_probe by {
        assert(s1[i].pathname == s2[i].pathname);
        assert(seq_has_str(second_known, s2[i].pathname));
    }
}

/// Folding probe results in is total and gentle: every entry survives in
/// place with its show group, filename and pathname untouched; an entry that
/// needed no probe is returned exactly as it was; and a probed entry receives
/// the probe's output — the empty string, the soft failure, like any other —
/// so a silent probe never costs the scan an entry.
pub proof fn lemma_apply_durs_pointwise(entries: Seq<EntrySpec>, durs: Seq<Seq<char>>)
    requires
        durs.len() == probe_count(entries),
    ensures
        apply_durs(entries, durs).len() == entries.len(),
        forall|i: int|
            0 <= i < entries.len() ==> {
                &&& (#[trigger] apply_durs(entries, durs)[i]).show_group == entries[i].show_group
                &&& apply_durs(entries, durs)[i].filename == entries[i].filename
                &&& apply_durs(entries, durs)[i].pathname == entries[i].pathname
                &&& !apply_durs(entries, durs)[i].needs_probe
                &&& (!entries[i].needs_probe ==> apply_durs(entries, durs)[i] == entries[i])
                &&& (entries[i].needs_probe ==> apply_durs(entries, durs)[i] == filled(
                    entries[i],
                    durs[probe_count(entries.take(i)) as int],
                ))
            },
    decreases entries.len(),
{
    if entries.len() > 0 {
        let prev = entries.drop_last();
        let n = entries.len() - 1;
        if entries.last().needs_probe {
            lemma_apply_durs_pointwise(prev, durs.drop_last());
            assert(entries.take(n) =~= prev);
            assert(probe_count(entries.take(n)) == durs.len() - 1);
            assert forall|i: int| 0 <= i < n implies entries.take(i) =~= prev.take(i) by {}
            assert forall|i: int| 0 <= i < n implies #[trigger] apply_durs(entries, durs)[i]
                == apply_durs(prev, durs.drop_last())[i] by {}
            assert forall|i: int| 0 <= i < n && prev[i].needs_probe implies durs.drop_last()[probe_count(
                prev.take(i),
            ) as int] == durs[probe_count(entries.take(i)) as int] by {
                crate::scan_core::lemma_probe_step(prev, i);
                crate::scan_core::lemma_probe_count_monotone(prev, i + 1, prev.len() as int);
                assert(prev.take(prev.len() as int) =~= prev);
                assert(probe_count(prev.take(i)) + 1 <= probe_count(prev));
                assert(prev.take(i) =~= entries.take(i));
                assert(probe_count(prev.take(i)) < durs.len() - 1);
            }
        } else {
            lemma_apply_durs_pointwise(prev, durs);
            assert(entries.take(n) =~= prev);
            assert forall|i: int| 0 <= i < n implies entries.take(i) =~= prev.take(i) by {}
        }
    }
}

} // verus!
