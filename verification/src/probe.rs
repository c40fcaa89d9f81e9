//! The duration prober's verifiable half: the fixed argument list handed to
//! the probing executable, and the parsing of the one line it prints.
//!
//! Spawning the process is the caller's business; it hands the raw line back
//! here. An empty result is a soft failure the scan absorbs.

use vstd::prelude::*;
use vstd::string::StringExecFns;
use crate::text::strings_view;

verus! {

/// The arguments the probing executable is invoked with: ask for the
/// format's duration in seconds, plainly, with nothing else on the stream.
pub open spec fn probe_args_spec(path: Seq<char>) -> Seq<Seq<char>> {
    seq![
        "-v"@,
        "error"@,
        "-show_entries"@,
        "format=duration"@,
        "-of"@,
        "default=noprint_wrappers=1:nokey=1"@,
        path,
    ]
}

/// Builds the fixed argument list for probing one file.
pub fn probe_args(path: &str) -> (r: Vec<String>)
    ensures
        strings_view(r@) == probe_args_spec(path@),
{
    let mut r: Vec<String> = Vec::new();
    r.push(String::from_str("-v"));
    r.push(String::from_str("error"));
    r.push(String::from_str("-show_entries"));
    r.push(String::from_str("format=duration"));
    r.push(String::from_str("-of"));
    r.push(String::from_str("default=noprint_wrappers=1:nokey=1"));
    r.push(String::from_str(path));
    proof {
        assert(strings_view(r@) =~= probe_args_spec(path@));
    }
    r
}

/// ASCII whitespace, as trimming understands it.
pub open spec fn is_ascii_space(b: u8) -> bool {
    b == 32 || b == 9 || b == 10 || b == 13
}

/// The bytes with leading ASCII whitespace removed.
pub open spec fn trim_start_spec(s: Seq<u8>) -> Seq<u8>
    decreases s.len(),
{
    if s.len() == 0 {
        s
    } else if is_ascii_space(s.first()) {
        trim_start_spec(s.drop_first())
    } else {
        s
    }
}

/// The bytes with trailing ASCII whitespace removed.
pub open spec fn trim_end_spec(s: Seq<u8>) -> Seq<u8>
    decreases s.len(),
{
    if s.len() == 0 {
        s
    } else if is_ascii_space(s.last()) {
        trim_end_spec(s.drop_last())
    } else {
        s
    }
}

/// The bytes with whitespace removed from both ends.
pub open spec fn trim_spec(s: Seq<u8>) -> Seq<u8> {
    trim_end_spec(trim_start_spec(s))
}

fn is_space_byte(b: u8) -> (r: bool)
    ensures
        r == is_ascii_space(b),
{
    b == 32 || b == 9 || b == 10 || b == 13
}

proof fn lemma_trim_start_at(s: Seq<u8>, lo: int)
    requires
        0 <= lo <= s.len(),
        forall|k: int| 0 <= k < lo ==> is_ascii_space(#[trigger] s[k]),
        lo < s.len() ==> !is_ascii_space(s[lo]),
    ensures
        trim_start_spec(s) == s.skip(lo),
    decreases lo,
{
    if lo == 0 {
        assert(s.skip(0) =~= s);
    } else {
        assert(is_ascii_space(s.first()));
        lemma_trim_start_at(s.drop_first(), lo - 1);
        assert(s.drop_first().skip(lo - 1) =~= s.skip(lo));
    }
}

proof fn lemma_trim_end_at(s: Seq<u8>, hi: int)
    requires
        0 <= hi <= s.len(),
        forall|k: int| hi <= k < s.len() ==> is_ascii_space(#[trigger] s[k]),
        hi > 0 ==> !is_ascii_space(s[hi - 1]),
    ensures
        trim_end_spec(s) == s.take(hi),
    decreases s.len() - hi,
{
    if hi == s.len() {
        assert(s.take(hi) =~= s);
    } else {
        assert(is_ascii_space(s.last()));
        lemma_trim_end_at(s.drop_last(), hi);
        assert(s.drop_last().take(hi) =~= s.take(hi));
    }
}

/// Parses the probing process's one line of output: the line with ASCII
/// whitespace trimmed from both ends. An empty result — the process printed
/// nothing usable — is a value like any other; the caller keeps the entry
/// and goes on.
pub fn parse_probe_line(line: &Vec<u8>) -> (r: Vec<u8>)
    ensures
        r@ == trim_spec(line@),
{
    let n = line.len();
    let mut lo: usize = 0;
    while lo < n && is_space_byte(line[lo])
        invariant
            lo <= n,
            n == line@.len(),
            forall|k: int| 0 <= k < lo ==> is_ascii_space(#[trigger] line@[k]),
        decreases n - lo,
    {
        lo += 1;
    }
    let mut hi: usize = n;
    while hi > lo && is_space_byte(line[hi - 1])
        invariant
            lo <= hi <= n,
            n == line@.len(),
            forall|k: int| hi <= k < n ==> is_ascii_space(#[trigger] line@[k]),
        decreases hi,
    {
        hi -= 1;
    }
    let mut r: Vec<u8> = Vec::new();
    let mut i: usize = lo;
    while i < hi
        invariant
            lo <= i <= hi <= n,
            n == line@.len(),
            r@ == line@.subrange(lo as int, i as int),
        decreases hi - i,
    {
        r.push(line[i]);
        proof {
            assert(r@ =~= line@.subrange(lo as int, i + 1));
        }
        i += 1;
    }
    proof {
        lemma_trim_start_at(line@, lo as int);
        let t = line@.skip(lo as int);
        lemma_trim_end_at(t, hi - lo);
        assert(t.take(hi - lo) =~= line@.subrange(lo as int, hi as int));
        assert(r@ =~= line@.subrange(lo as int, hi as int));
    }
    r
}

} // verus!
