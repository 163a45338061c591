//! The undo stack of executed sorts, and what restoring the last one takes:
//! the reverse renames and the folders to remove where they end up empty.

use crate::models::{contains_text, text_pairs, texts};
use crate::paths::{depth_of, parent_of, parent_path, path_depth};
use vstd::prelude::*;

verus! {

/// Executed sorts, most recent last; each is its moves as (original, moved to).
pub struct UndoStack {
    batches: Vec<Vec<(String, String)>>,
}

pub open spec fn batch_views(v: Seq<Vec<(String, String)>>) -> Seq<Seq<(Seq<char>, Seq<char>)>> {
    v.map_values(|b: Vec<(String, String)>| text_pairs(b@))
}

impl View for UndoStack {
    type V = Seq<Seq<(Seq<char>, Seq<char>)>>;

    closed spec fn view(&self) -> Self::V {
        batch_views(self.batches@)
    }
}

impl UndoStack {
    /// An empty stack.
    pub fn new() -> (r: UndoStack)
        ensures
            r@ == Seq::<Seq<(Seq<char>, Seq<char>)>>::empty(),
    {
        let r = UndoStack { batches: Vec::new() };
        assert(r@ =~= Seq::<Seq<(Seq<char>, Seq<char>)>>::empty());
        r
    }

    /// Puts the moves of one executed sort on top.
    pub fn push(&mut self, moves: Vec<(String, String)>)
        ensures
            final(self)@ == old(self)@.push(text_pairs(moves@)),
    {
        let ghost before = self.batches@;
        self.batches.push(moves);
        assert(batch_views(self.batches@) =~= batch_views(before).push(text_pairs(moves@)));
    }

    /// Takes the most recent batch off, if there is one.
    pub fn pop(&mut self) -> (r: Option<Vec<(String, String)>>)
        ensures
            old(self)@.len() == 0 ==> r is None && final(self)@ == old(self)@,
            old(self)@.len() > 0 ==> final(self)@ == old(self)@.drop_last(),
            old(self)@.len() > 0 ==> (r matches Some(b) && text_pairs(b@) == old(self)@.last()),
    {
        let ghost before = self.batches@;
        let r = self.batches.pop();
        proof {
            if before.len() > 0 {
                assert(self.batches@ =~= before.drop_last());
                assert(batch_views(self.batches@) =~= batch_views(before).drop_last());
            }
        }
        r
    }

    /// Whether no sort can be restored.
    pub fn is_empty(&self) -> (r: bool)
        ensures
            r == (self@.len() == 0),
    {
        self.batches.len() == 0
    }

    /// Number of sorts that can be restored.
    pub fn len(&self) -> (r: usize)
        ensures
            r == self@.len(),
    {
        self.batches.len()
    }
}

/// The renames that undo a batch: each move turned around, last move first.
pub open spec fn reverse_moves(b: Seq<(Seq<char>, Seq<char>)>) -> Seq<(Seq<char>, Seq<char>)> {
    Seq::new(b.len(), |k: int| (b[b.len() - 1 - k].1, b[b.len() - 1 - k].0))
}

/// Renames that restore a batch, as (from, to): each move turned around, the
/// last move first.
pub fn restore_moves(batch: &Vec<(String, String)>) -> (r: Vec<(String, String)>)
    ensures
        text_pairs(r@) == reverse_moves(text_pairs(batch@)),
{
    let ghost b = text_pairs(batch@);
    let n = batch.len();
    let mut out: Vec<(String, String)> = Vec::new();
    let mut k: usize = 0;
    while k < n
        invariant
            n == batch.len(),
            b == text_pairs(batch@),
            k <= n,
            text_pairs(out@) == reverse_moves(b).subrange(0, k as int),
        decreases n - k,
    {
        let m = &batch[n - 1 - k];
        let ghost before = text_pairs(out@);
        assert(b[n - 1 - k] == (m.0@, m.1@));
        out.push((m.1.clone(), m.0.clone()));
        assert(text_pairs(out@) =~= before.push((m.1@, m.0@)));
        assert(text_pairs(out@) =~= reverse_moves(b).subrange(0, k + 1));
        k = k + 1;
    }
    assert(reverse_moves(b).subrange(0, n as int) =~= reverse_moves(b));
    out
}

/// A file tree as a map from path to file.
pub type FileTree = Map<Seq<char>, nat>;

/// Whether `from` can be renamed to `to`: the first is there, the second is free.
pub open spec fn can_rename(fs: FileTree, m: (Seq<char>, Seq<char>)) -> bool {
    fs.contains_key(m.0) && !fs.contains_key(m.1)
}

pub open spec fn rename(fs: FileTree, m: (Seq<char>, Seq<char>)) -> FileTree {
    fs.remove(m.0).insert(m.1, fs[m.0])
}

/// Whether each rename, done in order, finds its source there and its target free.
pub open spec fn renames_succeed(fs: FileTree, ms: Seq<(Seq<char>, Seq<char>)>) -> bool
    decreases ms.len(),
{
    ms.len() == 0 || (can_rename(fs, ms[0]) && renames_succeed(rename(fs, ms[0]), ms.drop_first()))
}

/// The tree after the renames, done in order.
pub open spec fn apply_renames(fs: FileTree, ms: Seq<(Seq<char>, Seq<char>)>) -> FileTree
    decreases ms.len(),
{
    if ms.len() == 0 {
        fs
    } else {
        apply_renames(rename(fs, ms[0]), ms.drop_first())
    }
}

proof fn lemma_renames_concat(
    fs: FileTree,
    a: Seq<(Seq<char>, Seq<char>)>,
    b: Seq<(Seq<char>, Seq<char>)>,
)
    ensures
        apply_renames(fs, a + b) == apply_renames(apply_renames(fs, a), b),
        renames_succeed(fs, a + b) == (renames_succeed(fs, a) && renames_succeed(
            apply_renames(fs, a),
            b,
        )),
    decreases a.len(),
{
    if a.len() == 0 {
        assert(a + b =~= b);
    } else {
        assert((a + b).drop_first() =~= a.drop_first() + b);
        assert((a + b)[0] == a[0]);
        lemma_renames_concat(rename(fs, a[0]), a.drop_first(), b);
    }
}

/// Restoring an executed batch puts every file back at its original path: when
/// the batch's moves all succeeded on a tree, the restore renames all succeed on
/// the tree they left, and give back the tree as it was.
pub proof fn lemma_restore_round_trip(fs: FileTree, batch: Seq<(Seq<char>, Seq<char>)>)
    requires
        renames_succeed(fs, batch),
    ensures
        renames_succeed(apply_renames(fs, batch), reverse_moves(batch)),
        apply_renames(apply_renames(fs, batch), reverse_moves(batch)) == fs,
    decreases batch.len(),
{
    if batch.len() > 0 {
        let m = batch[0];
        let rest = batch.drop_first();
        let fs1 = rename(fs, m);
        lemma_restore_round_trip(fs1, rest);
        let back = seq![(m.1, m.0)];
        assert(reverse_moves(batch) =~= reverse_moves(rest) + back);
        lemma_renames_concat(apply_renames(fs1, rest), reverse_moves(rest), back);
        assert(apply_renames(fs, batch) == apply_renames(fs1, rest));
        assert(back.drop_first() =~= Seq::<(Seq<char>, Seq<char>)>::empty());
        let mid = apply_renames(apply_renames(fs1, rest), reverse_moves(rest));
        assert(mid == fs1);
        assert(m.0 != m.1);
        assert(can_rename(fs1, (m.1, m.0)));
        assert(back[0] == (m.1, m.0));
        assert(renames_succeed(rename(fs1, (m.1, m.0)), back.drop_first()));
        assert(renames_succeed(mid, back));
        assert(apply_renames(mid, back) == apply_renames(rename(fs1, (m.1, m.0)), back.drop_first()));
        assert(rename(fs1, (m.1, m.0)) =~= fs);
    } else {
        assert(reverse_moves(batch) =~= Seq::<(Seq<char>, Seq<char>)>::empty());
    }
}

/// Parent folders of the moved-to paths of a batch.
pub open spec fn target_parents(b: Seq<(Seq<char>, Seq<char>)>) -> Set<Seq<char>> {
    Set::new(|p: Seq<char>| exists|k: int| 0 <= k < b.len() && parent_of(#[trigger] b[k].1) == Some(p))
}

/// Folders to remove after a restore where they end up empty: the parent
/// folders of the moved-to paths, each once, deepest first.
pub fn cleanup_folders(batch: &Vec<(String, String)>) -> (r: Vec<String>)
    ensures
        texts(r@).to_set() == target_parents(text_pairs(batch@)),
        texts(r@).no_duplicates(),
        forall|i: int, j: int|
            0 <= i < j < r.len() ==> depth_of(#[trigger] r@[i]@) >= depth_of(#[trigger] r@[j]@),
{
    let ghost b = text_pairs(batch@);
    let mut out: Vec<String> = Vec::new();
    let mut depths: Vec<usize> = Vec::new();
    let mut k: usize = 0;
    assert(texts(out@).to_set() =~= target_parents(b.subrange(0, 0)));
    while k < batch.len()
        invariant
            k <= batch.len(),
            b == text_pairs(batch@),
            depths.len() == out.len(),
            forall|i: int| 0 <= i < out.len() ==> depths@[i] == depth_of(#[trigger] out@[i]@),
            forall|i: int, j: int|
                0 <= i < j < out.len() ==> depth_of(#[trigger] out@[i]@) >= depth_of(
                    #[trigger] out@[j]@,
                ),
            texts(out@).no_duplicates(),
            texts(out@).to_set() == target_parents(b.subrange(0, k as int)),
        decreases batch.len() - k,
    {
        let ghost pre = b.subrange(0, k as int);
        let ghost cur = b.subrange(0, k + 1);
        let ghost before = texts(out@);
        assert(cur[k as int] == b[k as int]);
        match parent_path(batch[k].1.as_str()) {
            Some(p) => {
                if !contains_text(&out, p.as_str()) {
                    let d = path_depth(p.as_str());
                    let mut j: usize = 0;
                    while j < out.len() && depths[j] >= d
                        invariant
                            j <= out.len(),
                            depths.len() == out.len(),
                            forall|i: int| 0 <= i < j ==> depths@[i] >= d,
                        decreases out.len() - j,
                    {
                        j = j + 1;
                    }
                    let ghost dold = depths@;
                    let ghost oold = out@;
                    out.insert(j, p);
                    depths.insert(j, d);
                    assert(texts(out@) =~= before.insert(j as int, p@));
                    assert forall|i: int| 0 <= i < out.len() implies depths@[i] == depth_of(
                        #[trigger] out@[i]@,
                    ) by {
                        if i < j {
                            assert(out@[i] == oold[i]);
                        } else if i > j {
                            assert(out@[i] == oold[i - 1]);
                        }
                    }
                    assert forall|i: int, i2: int|
                        0 <= i < i2 < out.len() implies depth_of(#[trigger] out@[i]@) >= depth_of(
                        #[trigger] out@[i2]@,
                    ) by {
                        assert(depths@[i] == depth_of(out@[i]@));
                        assert(depths@[i2] == depth_of(out@[i2]@));
                        if i < j && i2 > j {
                            assert(depths@[i] == dold[i]);
                            assert(depths@[i2] == dold[i2 - 1]);
                        } else if i2 > j && i > j {
                            assert(depths@[i] == dold[i - 1]);
                            assert(depths@[i2] == dold[i2 - 1]);
                            assert(depth_of(oold[i - 1]@) >= depth_of(oold[i2 - 1]@));
                        } else if i < j && i2 < j {
                            assert(depth_of(oold[i]@) >= depth_of(oold[i2]@));
                        } else if i == j {
                            if i2 - 1 < dold.len() {
                                assert(depths@[i2] == dold[i2 - 1]);
                                assert(!(dold[j as int] >= d) || j == dold.len());
                                if (i2 - 1) > j {
                                    assert(depth_of(oold[j as int]@) >= depth_of(oold[i2 - 1]@));
                                }
                            }
                        } else {
                            assert(depths@[i] == dold[i]);
                        }
                    }
                    proof {
                        assert forall|x: Seq<char>| #[trigger]
                            texts(out@).to_set().contains(x) == target_parents(cur).contains(x) by {
                            if texts(out@).contains(x) {
                                let i = choose|i: int|
                                    0 <= i < texts(out@).len() && #[trigger] texts(out@)[i] == x;
                                if i < j {
                                    assert(before[i] == x);
                                } else if i > j {
                                    assert(before[i - 1] == x);
                                }
                            }
                            if x != p@ {
                                if target_parents(cur).contains(x) {
                                    let q = choose|q: int|
                                        0 <= q < cur.len() && parent_of(#[trigger] cur[q].1)
                                            == Some(x);
                                    assert(pre[q] == cur[q]);
                                    assert(target_parents(pre).contains(x));
                                    assert(before.to_set().contains(x));
                                    let i = choose|i: int|
                                        0 <= i < before.len() && #[trigger] before[i] == x;
                                    if i < j {
                                        assert(texts(out@)[i] == x);
                                    } else {
                                        assert(texts(out@)[i + 1] == x);
                                    }
                                }
                                if texts(out@).to_set().contains(x) {
                                    assert(before.contains(x));
                                    assert(target_parents(pre).contains(x));
                                    let q = choose|q: int|
                                        0 <= q < pre.len() && parent_of(#[trigger] pre[q].1)
                                            == Some(x);
                                    assert(cur[q] == pre[q]);
                                }
                            } else {
                                assert(texts(out@)[j as int] == x);
                                assert(parent_of(cur[k as int].1) == Some(x));
                            }
                        }
                        assert(texts(out@).to_set() =~= target_parents(cur));
                        assert forall|a: int, c: int|
                            0 <= a < c < texts(out@).len() implies texts(out@)[a] != texts(
                                out@,
                            )[c] by {
                            if a < j && c > j {
                                assert(texts(out@)[c] == before[c - 1]);
                            } else if a > j {
                                assert(texts(out@)[c] == before[c - 1]);
                                assert(texts(out@)[a] == before[a - 1]);
                            } else if c < j {
                            } else if a == j {
                                assert(texts(out@)[c] == before[c - 1]);
                            } else {
                                assert(texts(out@)[a] == before[a]);
                            }
                        }
                    }
                } else {
                    proof {
                        assert forall|x: Seq<char>| #[trigger]
                            texts(out@).to_set().contains(x) == target_parents(cur).contains(x) by {
                            if target_parents(cur).contains(x) && x != p@ {
                                let q = choose|q: int|
                                    0 <= q < cur.len() && parent_of(#[trigger] cur[q].1)
                                        == Some(x);
                                assert(pre[q] == cur[q]);
                                assert(target_parents(pre).contains(x));
                            }
                            if texts(out@).to_set().contains(x) {
                                assert(target_parents(pre).contains(x));
                                let q = choose|q: int|
                                    0 <= q < pre.len() && parent_of(#[trigger] pre[q].1)
                                        == Some(x);
                                assert(cur[q] == pre[q]);
                            }
                        }
                        assert(texts(out@).to_set() =~= target_parents(cur));
                    }
                }
            },
            None => {
                proof {
                    assert forall|x: Seq<char>| #[trigger]
                        texts(out@).to_set().contains(x) == target_parents(cur).contains(x) by {
                        if target_parents(cur).contains(x) {
                            let q = choose|q: int|
                                0 <= q < cur.len() && parent_of(#[trigger] cur[q].1) == Some(x);
                            assert(pre[q] == cur[q]);
                            assert(target_parents(pre).contains(x));
                        }
                        if texts(out@).to_set().contains(x) {
                            assert(target_parents(pre).contains(x));
                            let q = choose|q: int|
                                0 <= q < pre.len() && parent_of(#[trigger] pre[q].1) == Some(x);
                            assert(cur[q] == pre[q]);
                        }
                    }
                    assert(texts(out@).to_set() =~= target_parents(cur));
                }
            },
        }
        k = k + 1;
    }
    assert(b.subrange(0, k as int) =~= b);
    out
}

} // verus!
