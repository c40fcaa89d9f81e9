//! Small executable helpers on strings, with exact contracts over their
//! character views.

use vstd::prelude::*;
use vstd::string::StringExecFns;

verus! {

/// The views of a sequence of owned strings.
pub open spec fn strings_view(v: Seq<String>) -> Seq<Seq<char>> {
    v.map_values(|s: String| s@)
}

/// Whether a sequence of character strings holds `x`.
pub open spec fn seq_has_str(v: Seq<Seq<char>>, x: Seq<char>) -> bool {
    exists|i: int| 0 <= i < v.len() && v[i] == x
}

/// True iff the two string slices hold the same characters.
pub fn str_eq(a: &str, b: &str) -> (r: bool)
    ensures
        r == (a@ == b@),
{
    let sa: String = a.to_owned();
    let sb: String = b.to_owned();
    sa == sb
}

/// Whether one of the owned strings in `v` holds the characters of `x`.
pub fn strings_have(v: &Vec<String>, x: &str) -> (r: bool)
    ensures
        r == seq_has_str(strings_view(v@), x@),
{
    let mut i: usize = 0;
    while i < v.len()
        invariant
            i <= v@.len(),
            forall|j: int| 0 <= j < i ==> v@[j]@ != x@,
        decreases v@.len() - i,
    {
        if str_eq(v[i].as_str(), x) {
            assert(strings_view(v@)[i as int] == v@[i as int]@);
            return true;
        }
        i += 1;
    }
    assert forall|i: int| 0 <= i < strings_view(v@).len() implies strings_view(v@)[i] != x@ by {
        assert(strings_view(v@)[i] == v@[i]@);
    }
    false
}

/// The concatenation of two string slices.
pub fn concat2(a: &str, b: &str) -> (r: String)
    ensures
        r@ == a@ + b@,
{
    let s: String = String::from_str(a);
    s.concat(b)
}

/// The concatenation of three string slices.
pub fn concat3(a: &str, b: &str, c: &str) -> (r: String)
    ensures
        r@ == a@ + b@ + c@,
{
    let s: String = String::from_str(a);
    let s: String = s.concat(b);
    s.concat(c)
}

} // verus!
