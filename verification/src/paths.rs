//! Path-string helpers: joining a directory with a filename and reading a
//! pathname's extension.

use vstd::prelude::*;
use vstd::string::StrSliceExecFns;
use crate::text::concat3;

verus! {

/// The characters after the final `.` of the final path component, provided
/// the scan from the end meets that `.` before any `/` and the `.` neither
/// starts the component nor ends the path. Working from the end: a separator
/// or an empty string yields nothing; a dot yields the characters gathered so
/// far when a non-separator character stands before it.
pub open spec fn split_ext(s: Seq<char>) -> Option<Seq<char>>
    decreases s.len(),
{
    if s.len() == 0 {
        None
    } else if s.last() == '/' {
        None
    } else if s.last() == '.' {
        if s.len() >= 2 && s[s.len() - 2] != '/' {
            Some(Seq::<char>::empty())
        } else {
            None
        }
    } else {
        match split_ext(s.drop_last()) {
            None => None,
            Some(e) => Some(e.push(s.last())),
        }
    }
}

/// A pathname's extension: the non-empty characters after the final dot of
/// its final component, when that component has a non-empty stem.
pub open spec fn path_ext_spec(s: Seq<char>) -> Option<Seq<char>> {
    match split_ext(s) {
        None => None,
        Some(e) => if e.len() == 0 {
            None
        } else {
            Some(e)
        },
    }
}

/// What `split_ext` looks like once the unscanned suffix `s[i..]` is known to
/// hold neither a dot nor a separator.
spec fn split_ext_through(s: Seq<char>, i: int) -> Option<Seq<char>> {
    match split_ext(s.take(i)) {
        None => None,
        Some(e) => Some(e + s.skip(i)),
    }
}

/// Reads a pathname's extension, scanning the characters from the end.
pub fn path_extension(pathname: &str) -> (r: Option<String>)
    ensures
        match r {
            Some(e) => path_ext_spec(pathname@) == Some(e@),
            None => path_ext_spec(pathname@) == None::<Seq<char>>,
        },
{
    let ghost s = pathname@;
    let n = pathname.unicode_len();
    let mut i: usize = n;
    proof {
        assert(s.take(n as int) =~= s);
        assert(s.skip(n as int) =~= Seq::<char>::empty());
        match split_ext(s) {
            Some(e) => {
                assert(e + s.skip(n as int) =~= e);
            },
            None => {},
        }
        assert(split_ext_through(s, n as int) == split_ext(s));
    }
    while i > 0
        invariant
            i <= n,
            n == s.len(),
            s == pathname@,
            split_ext_through(s, i as int) == split_ext(s),
            forall|k: int| i <= k < n ==> s[k] != '.' && s[k] != '/',
        decreases i,
    {
        let c = pathname.get_char(i - 1);
        if c == '/' {
            proof {
                assert(s.take(i as int).last() == '/');
                assert(split_ext(s.take(i as int)) == None::<Seq<char>>);
            }
            return None;
        }
        if c == '.' {
            if i >= 2 && pathname.get_char(i - 2) != '/' {
                proof {
                    let t = s.take(i as int);
                    assert(t.last() == '.');
                    assert(t.len() >= 2 && t[t.len() - 2] != '/');
                    assert(split_ext(t) == Some(Seq::<char>::empty()));
                    assert(Seq::<char>::empty() + s.skip(i as int) =~= s.skip(i as int));
                    assert(split_ext(s) == Some(s.skip(i as int)));
                }
                if i == n {
                    proof {
                        assert(s.skip(i as int) =~= Seq::<char>::empty());
                    }
                    return None;
                }
                let e = pathname.substring_char(i, n);
                proof {
                    assert(e@ =~= s.skip(i as int));
                    assert(e@.len() > 0);
                }
                return Some(e.to_owned());
            } else {
                proof {
                    let t = s.take(i as int);
                    assert(t.last() == '.');
                    if i >= 2 {
                        assert(t[t.len() - 2] == s[i - 2]);
                        assert(t.len() >= 2 && t[t.len() - 2] == '/');
                    }
                    assert(split_ext(t) == None::<Seq<char>>);
                }
                return None;
            }
        }
        proof {
            let t = s.take(i as int);
            let t1 = s.take(i - 1);
            assert(t.last() == s[i - 1]);
            assert(s[i - 1] != '.' && s[i - 1] != '/');
            assert(t.drop_last() =~= t1);
            match split_ext(t1) {
                None => {
                    assert(split_ext(t) == None::<Seq<char>>);
                },
                Some(e) => {
                    assert(split_ext(t) == Some(e.push(s[i - 1])));
                    assert(e.push(s[i - 1]) + s.skip(i as int) =~= e + s.skip(i - 1));
                },
            }
            assert(split_ext_through(s, i - 1) == split_ext(s));
        }
        i -= 1;
    }
    proof {
        assert(s.take(0) =~= Seq::<char>::empty());
        assert(split_ext(s.take(0)) == None::<Seq<char>>);
        assert(split_ext(s) == None::<Seq<char>>);
    }
    None
}

/// Joins a directory and a plain filename with a separator.
pub fn join_path(dir: &str, filename: &str) -> (r: String)
    ensures
        r@ == dir@ + "/"@ + filename@,
{
    concat3(dir, "/", filename)
}

} // verus!
