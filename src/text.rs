//! Prefix, suffix and infix tests on texts.

use crate::similarity::chars_of;
use vstd::prelude::*;

verus! {

/// `p` occurs in `t` at position `i`.
pub open spec fn occurs_at(t: Seq<char>, p: Seq<char>, i: int) -> bool {
    0 <= i && i + p.len() <= t.len() && t.subrange(i, i + p.len()) == p
}

/// `p` occurs somewhere in `t`.
pub open spec fn is_infix(p: Seq<char>, t: Seq<char>) -> bool {
    exists|i: int| occurs_at(t, p, i)
}

fn occurs_at_exec(t: &Vec<char>, p: &Vec<char>, i: usize) -> (r: bool)
    requires
        i + p.len() <= t.len(),
    ensures
        r == occurs_at(t@, p@, i as int),
{
    let mut k: usize = 0;
    while k < p.len()
        invariant
            i + p.len() <= t.len(),
            k <= p.len(),
            t@.subrange(i as int, i + k) == p@.subrange(0, k as int),
        decreases p.len() - k,
    {
        if t[i + k] != p[k] {
            assert(t@.subrange(i as int, i + p.len())[k as int] != p@[k as int]);
            return false;
        }
        assert(t@.subrange(i as int, i + k + 1) =~= t@.subrange(i as int, i + k).push(t@[i + k]));
        assert(p@.subrange(0, k + 1) =~= p@.subrange(0, k as int).push(p@[k as int]));
        k = k + 1;
    }
    assert(p@.subrange(0, k as int) =~= p@);
    true
}

/// Whether `t` starts with `p`.
pub fn text_starts_with(t: &str, p: &str) -> (r: bool)
    ensures
        r == occurs_at(t@, p@, 0),
{
    let tc = chars_of(t);
    let pc = chars_of(p);
    if pc.len() > tc.len() {
        return false;
    }
    occurs_at_exec(&tc, &pc, 0)
}

/// Whether `t` ends with `p`.
pub fn text_ends_with(t: &str, p: &str) -> (r: bool)
    ensures
        r == occurs_at(t@, p@, t@.len() - p@.len()),
{
    let tc = chars_of(t);
    let pc = chars_of(p);
    if pc.len() > tc.len() {
        return false;
    }
    occurs_at_exec(&tc, &pc, tc.len() - pc.len())
}

/// Whether `p` occurs in `t`.
pub fn text_contains(t: &str, p: &str) -> (r: bool)
    ensures
        r == is_infix(p@, t@),
{
    let tc = chars_of(t);
    let pc = chars_of(p);
    if pc.len() > tc.len() {
        assert forall|i: int| !occurs_at(t@, p@, i) by {}
        return false;
    }
    let last = tc.len() - pc.len();
    let mut i: usize = 0;
    while i < last
        invariant
            last == tc.len() - pc.len(),
            pc.len() <= tc.len(),
            tc@ == t@,
            pc@ == p@,
            forall|j: int| 0 <= j < i ==> !occurs_at(t@, p@, j),
            i <= last,
        decreases last - i,
    {
        if occurs_at_exec(&tc, &pc, i) {
            return true;
        }
        i = i + 1;
    }
    if occurs_at_exec(&tc, &pc, last) {
        return true;
    }
    assert forall|j: int| !occurs_at(t@, p@, j) by {
        if 0 <= j < i {
        }
    }
    false
}

} // verus!
