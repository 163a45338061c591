//! Dice coefficient of two names over their character multisets.

use vstd::multiset::Multiset;
use vstd::prelude::*;

verus! {

/// Size of the intersection of the two character multisets.
pub open spec fn common_chars(a: Seq<char>, b: Seq<char>) -> nat {
    a.to_multiset().intersection_with(b.to_multiset()).len()
}

/// A similarity score with value `2 * common / total`.
#[derive(Clone, Copy, Debug, PartialEq, Eq)]
pub struct Score {
    pub common: u128,
    pub total: u128,
}

impl Score {
    pub open spec fn wf(self) -> bool {
        &&& 0 < self.total < 0x2_0000_0000_0000_0000
        &&& 2 * self.common <= self.total
    }

    pub open spec fn value(self) -> (int, int) {
        (self.common as int, self.total as int)
    }

    /// Whether the score reaches `percent` / 100.
    pub fn meets(&self, percent: u8) -> (r: bool)
        requires
            self.wf(),
        ensures
            r == reaches(self.value(), percent as int),
    {
        proof {
            let t = self.total as int;
            let q = percent as int;
            assert(0 <= q * t <= 255 * 0x2_0000_0000_0000_0000) by (nonlinear_arith)
                requires
                    0 <= q <= 255,
                    0 <= t < 0x2_0000_0000_0000_0000,
            ;
        }
        200 * self.common >= percent as u128 * self.total
    }

    /// Sign of the difference between this score and `other`: 1, 0 or -1.
    pub fn compare_to(&self, other: &Score) -> (r: i8)
        requires
            self.wf(),
            other.wf(),
        ensures
            r as int == compare(self.value(), other.value()),
    {
        // The cross products can take 129 bits, so each is split as
        // c * (2h + l) = 2(c * h) + c * l, whose parts fit in 128.
        let c1 = self.common;
        let c2 = other.common;
        let h1 = self.total / 2;
        let l1 = self.total % 2;
        let h2 = other.total / 2;
        let l2 = other.total % 2;
        proof {
            lemma_half_product(c1 as int, h2 as int, l2 as int);
            lemma_half_product(c2 as int, h1 as int, l1 as int);
        }
        let p = c1 * h2;
        let q = c2 * h1;
        let pl = c1 * l2;
        let ql = c2 * l1;
        let big: u128 = 0x1_0000_0000_0000_0000;
        if p >= q {
            let d = p - q;
            if d >= big {
                return 1;
            }
            let x = 2 * d + pl;
            if x > ql {
                1
            } else if x == ql {
                0
            } else {
                -1
            }
        } else {
            let d = q - p;
            if d >= big {
                return -1;
            }
            let y = 2 * d + ql;
            if y > pl {
                -1
            } else if y == pl {
                0
            } else {
                1
            }
        }
    }
}

proof fn lemma_half_product(c: int, h: int, l: int)
    requires
        0 <= c < 0x1_0000_0000_0000_0000,
        0 <= h < 0x1_0000_0000_0000_0000,
        0 <= l <= 1,
    ensures
        c * (2 * h + l) == 2 * (c * h) + c * l,
        0 <= c * h < 0x1_0000_0000_0000_0000_0000_0000_0000_0000,
        0 <= c * l <= c,
{
    assert(c * (2 * h + l) == 2 * (c * h) + c * l) by (nonlinear_arith);
    assert(0 <= c * h < 0x1_0000_0000_0000_0000_0000_0000_0000_0000) by (nonlinear_arith)
        requires
            0 <= c < 0x1_0000_0000_0000_0000,
            0 <= h < 0x1_0000_0000_0000_0000,
    ;
    assert(0 <= c * l <= c) by (nonlinear_arith)
        requires
            0 <= c,
            0 <= l <= 1,
    ;
}

/// The Dice score of two names as (common, total), with value `2 * common / total`:
/// identical names score one, a name against an empty one scores zero.
pub open spec fn dice(a: Seq<char>, b: Seq<char>) -> (int, int) {
    if a == b {
        (1, 2)
    } else if a.len() == 0 || b.len() == 0 {
        (0, 1)
    } else {
        (common_chars(a, b) as int, (a.len() + b.len()) as int)
    }
}

/// Score `s` reaches `percent` / 100.
pub open spec fn reaches(s: (int, int), percent: int) -> bool {
    200 * s.0 >= percent * s.1
}

/// Sign of `value(s) - value(t)`, by cross multiplication.
pub open spec fn compare(s: (int, int), t: (int, int)) -> int {
    if s.0 * t.1 > t.0 * s.1 {
        1
    } else if s.0 * t.1 == t.0 * s.1 {
        0
    } else {
        -1
    }
}

/// Matching the first character of `c + t` against an equal character of `b`,
/// at any position, takes one from the common count.
proof fn lemma_common_take(c: char, t: Seq<char>, b: Seq<char>, p: int)
    requires
        0 <= p < b.len(),
        b[p] == c,
    ensures
        common_chars(seq![c] + t, b) == 1 + common_chars(t, b.remove(p)),
{
    broadcast use vstd::seq_lib::group_to_multiset_ensures;
    broadcast use vstd::multiset::group_multiset_axioms;
    broadcast use vstd::multiset::group_multiset_properties;

    let a = seq![c] + t;
    assert(a.drop_first() =~= t);
    assert(a.to_multiset() =~= t.to_multiset().insert(c)) by {
        vstd::seq_lib::lemma_multiset_commutative(seq![c], t);
        assert(seq![c] =~= Seq::<char>::empty().push(c));
    }
    let b2 = b.remove(p);
    assert(b2.to_multiset() =~= b.to_multiset().remove(c));
    assert(b.to_multiset().count(c) > 0);
    let lhs = a.to_multiset().intersection_with(b.to_multiset());
    let rhs = t.to_multiset().intersection_with(b2.to_multiset());
    assert forall|x: char| lhs.count(x) == #[trigger] rhs.insert(c).count(x) by {}
    assert(lhs =~= rhs.insert(c));
}

/// A first character with no equal character in `b` adds nothing.
proof fn lemma_common_skip(c: char, t: Seq<char>, b: Seq<char>)
    requires
        !b.contains(c),
    ensures
        common_chars(seq![c] + t, b) == common_chars(t, b),
{
    broadcast use vstd::seq_lib::group_to_multiset_ensures;
    broadcast use vstd::multiset::group_multiset_axioms;
    broadcast use vstd::multiset::group_multiset_properties;

    let a = seq![c] + t;
    assert(a.drop_first() =~= t);
    assert(a.to_multiset() =~= t.to_multiset().insert(c)) by {
        vstd::seq_lib::lemma_multiset_commutative(seq![c], t);
        assert(seq![c] =~= Seq::<char>::empty().push(c));
    }
    assert(b.to_multiset().count(c) == 0);
    let lhs = a.to_multiset().intersection_with(b.to_multiset());
    let rhs = t.to_multiset().intersection_with(b.to_multiset());
    assert forall|x: char| lhs.count(x) == #[trigger] rhs.count(x) by {}
    assert(lhs =~= rhs);
}

proof fn lemma_common_empty(b: Seq<char>)
    ensures
        common_chars(Seq::empty(), b) == 0,
{
    broadcast use vstd::seq_lib::group_to_multiset_ensures;
    broadcast use vstd::multiset::group_multiset_axioms;
    broadcast use vstd::multiset::group_multiset_properties;

    let i = Seq::<char>::empty().to_multiset().intersection_with(b.to_multiset());
    assert forall|x: char| i.count(x) == #[trigger] Multiset::<char>::empty().count(x) by {}
    assert(i =~= Multiset::empty());
}

/// The common count is at most the length of either name.
pub proof fn lemma_common_bounded(a: Seq<char>, b: Seq<char>)
    ensures
        common_chars(a, b) <= a.len(),
        common_chars(a, b) <= b.len(),
    decreases a.len(),
{
    if a.len() == 0 {
        assert(a =~= Seq::empty());
        lemma_common_empty(b);
    } else {
        let c = a[0];
        let t = a.drop_first();
        assert(a =~= seq![c] + t);
        if b.contains(c) {
            let p = b.index_of(c);
            lemma_common_take(c, t, b, p);
            lemma_common_bounded(t, b.remove(p));
        } else {
            lemma_common_skip(c, t, b);
            lemma_common_bounded(t, b);
        }
    }
}

/// The common count does not depend on the order of the two names.
pub proof fn lemma_common_symmetric(a: Seq<char>, b: Seq<char>)
    ensures
        common_chars(a, b) == common_chars(b, a),
{
    broadcast use vstd::seq_lib::group_to_multiset_ensures;
    broadcast use vstd::multiset::group_multiset_axioms;
    broadcast use vstd::multiset::group_multiset_properties;

    let l = a.to_multiset().intersection_with(b.to_multiset());
    let r = b.to_multiset().intersection_with(a.to_multiset());
    assert forall|x: char| l.count(x) == #[trigger] r.count(x) by {}
    assert(l =~= r);
}

/// Whether two texts hold the same characters.
pub fn same_text(a: &str, b: &str) -> (r: bool)
    ensures
        r == (a@ == b@),
{
    let n = a.unicode_len();
    let m = b.unicode_len();
    if n != m {
        return false;
    }
    let mut i: usize = 0;
    while i < n
        invariant
            n == a@.len(),
            m == b@.len(),
            n == m,
            i <= n,
            a@.subrange(0, i as int) == b@.subrange(0, i as int),
        decreases n - i,
    {
        if a.get_char(i) != b.get_char(i) {
            return false;
        }
        assert(a@.subrange(0, i + 1) =~= a@.subrange(0, i as int).push(a@[i as int]));
        assert(b@.subrange(0, i + 1) =~= b@.subrange(0, i as int).push(b@[i as int]));
        i = i + 1;
    }
    assert(a@ =~= a@.subrange(0, n as int));
    assert(b@ =~= b@.subrange(0, n as int));
    true
}

/// The characters of a text, in order.
pub fn chars_of(s: &str) -> (r: Vec<char>)
    ensures
        r@ == s@,
{
    let n = s.unicode_len();
    let mut out: Vec<char> = Vec::new();
    let mut i: usize = 0;
    while i < n
        invariant
            n == s@.len(),
            i <= n,
            out@ == s@.subrange(0, i as int),
        decreases n - i,
    {
        out.push(s.get_char(i));
        assert(out@ =~= s@.subrange(0, i + 1));
        i = i + 1;
    }
    assert(out@ =~= s@);
    out
}

/// Index of the first occurrence of `c` in `v`.
fn position_of(v: &Vec<char>, c: char) -> (r: Option<usize>)
    ensures
        r matches Some(j) ==> j < v.len() && v@[j as int] == c,
        r is None ==> !v@.contains(c),
{
    let mut j: usize = 0;
    while j < v.len()
        invariant
            forall|k: int| 0 <= k < j ==> v@[k] != c,
            j <= v.len(),
        decreases v.len() - j,
    {
        if v[j] == c {
            return Some(j);
        }
        j = j + 1;
    }
    None
}

/// Dice coefficient of two normalized names: identical names score one, a name
/// against an empty one scores zero, otherwise twice the number of characters
/// matched one for one, over the sum of the two lengths.
pub fn calculate_similarity(s1: &str, s2: &str) -> (r: Score)
    ensures
        r.wf(),
        (r.common as int, r.total as int) == dice(s1@, s2@),
{
    if same_text(s1, s2) {
        return Score { common: 1, total: 2 };
    }
    let a = chars_of(s1);
    let n = a.len();
    let m = s2.unicode_len();
    if n == 0 || m == 0 {
        return Score { common: 0, total: 1 };
    }
    let mut rest = chars_of(s2);
    let mut common: usize = 0;
    let mut i: usize = 0;
    proof {
        assert(s1@.subrange(0, n as int) =~= s1@);
    }
    while i < n
        invariant
            a@ == s1@,
            n == a@.len(),
            i <= n,
            common <= i,
            common + common_chars(s1@.subrange(i as int, n as int), rest@) == common_chars(
                s1@,
                s2@,
            ),
        decreases n - i,
    {
        let c = a[i];
        let ghost t = s1@.subrange(i + 1, n as int);
        assert(s1@.subrange(i as int, n as int) =~= seq![c] + t);
        let found = position_of(&rest, c);
        if let Some(j) = found {
            proof {
                lemma_common_take(c, t, rest@, j as int);
            }
            rest.remove(j);
            common = common + 1;
        } else {
            proof {
                lemma_common_skip(c, t, rest@);
            }
        }
        i = i + 1;
    }
    proof {
        assert(s1@.subrange(n as int, n as int) =~= Seq::<char>::empty());
        lemma_common_empty(rest@);
        lemma_common_bounded(s1@, s2@);
    }
    Score { common: common as u128, total: n as u128 + m as u128 }
}

} // verus!
