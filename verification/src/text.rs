//! Character-level helpers over string views.

use vstd::prelude::*;
use vstd::std_specs::iter::IteratorSpec;

verus! {

/// `needle` occurs in `hay` starting at position `at`.
pub open spec fn occurs_at(hay: Seq<char>, needle: Seq<char>, at: int) -> bool {
    0 <= at && at + needle.len() <= hay.len() && hay.subrange(at, at + needle.len()) == needle
}

/// `needle` occurs somewhere in `hay` as a contiguous run. The empty run
/// occurs in every sequence.
pub open spec fn has_run(hay: Seq<char>, needle: Seq<char>) -> bool {
    exists|at: int| occurs_at(hay, needle, at)
}

/// The characters of a string, in order.
pub fn chars_of(s: &str) -> (v: Vec<char>)
    ensures
        v@ == s@,
{
    broadcast use vstd::string::group_string_axioms;

    let mut v: Vec<char> = Vec::new();
    let mut it = s.chars();
    loop
        invariant
            it.obeys_prophetic_iter_laws(),
            v@ + it.remaining() == s@,
        decreases s@.len() - v@.len(),
    {
        let ghost before = it.remaining();
        match it.next() {
            Some(c) => {
                v.push(c);
                proof {
                    assert(before == seq![c] + it.remaining());
                    assert(v@ + it.remaining() =~= s@);
                }
            },
            None => {
                proof {
                    assert(before.len() == 0);
                    assert(v@ =~= s@);
                }
                return v;
            },
        }
    }
}

/// Whether `needle` stands in `hay` at position `at`.
fn run_at(hay: &[char], needle: &[char], at: usize) -> (found: bool)
    requires
        at + needle@.len() <= hay@.len(),
    ensures
        found == occurs_at(hay@, needle@, at as int),
{
    let total: usize = hay.len();
    let mut j: usize = 0;
    while j < needle.len()
        invariant
            j <= needle@.len(),
            total == hay@.len(),
            at + needle@.len() <= hay@.len(),
            forall|k: int| 0 <= k < j ==> hay@[at + k] == needle@[k],
        decreases needle@.len() - j,
    {
        if hay[at + j] != needle[j] {
            proof {
                let run = hay@.subrange(at as int, at + needle@.len());
                assert(run[j as int] == hay@[at + j]);
            }
            return false;
        }
        j += 1;
    }
    proof {
        assert(hay@.subrange(at as int, at + needle@.len()) =~= needle@);
    }
    true
}

/// Whether `needle` occurs in `hay` as a contiguous run.
pub fn contains_run(hay: &[char], needle: &[char]) -> (found: bool)
    ensures
        found == has_run(hay@, needle@),
{
    if needle.len() == 0 {
        proof {
            assert(hay@.subrange(0, 0) =~= needle@);
            assert(occurs_at(hay@, needle@, 0));
        }
        return true;
    }
    if needle.len() > hay.len() {
        return false;
    }
    let last: usize = hay.len() - needle.len();
    let mut i: usize = 0;
    while i <= last
        invariant
            i <= last + 1,
            last < usize::MAX,
            last + needle@.len() == hay@.len(),
            needle@.len() > 0,
            forall|a: int| 0 <= a < i ==> !occurs_at(hay@, needle@, a),
        decreases last + 1 - i,
    {
        if run_at(hay, needle, i) {
            return true;
        }
        i += 1;
    }
    false
}

/// Whether the string `needle` occurs inside the string `hay`.
pub fn str_contains(hay: &str, needle: &str) -> (found: bool)
    ensures
        found == has_run(hay@, needle@),
{
    let h = chars_of(hay);
    let n = chars_of(needle);
    contains_run(h.as_slice(), n.as_slice())
}

} // verus!
