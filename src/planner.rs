//! Builds the sort plan: each loose file under the root goes to the most similar
//! folder, to its forced target, or to a new folder named after it.

use crate::models::{
    contains_text, entry_views, op_views, text_pairs, texts, EntryView, OpView, SortOperation,
    SortStats, SorterFileEntry,
};
use crate::paths::{
    join_path, joined, lower_of, lowercase, normalize_name, normalized, parent_of, parent_path,
    path_eq, same_path,
};
use crate::similarity::{calculate_similarity, compare, dice, reaches};
use vstd::prelude::*;

verus! {

/// Destination that `forced` gives `key`: the first pair whose source is `key`.
pub open spec fn forced_lookup(forced: Seq<(Seq<char>, Seq<char>)>, key: Seq<char>) -> Option<
    Seq<char>,
>
    decreases forced.len(),
{
    if forced.len() == 0 {
        None
    } else {
        match forced_lookup(forced.drop_last(), key) {
            Some(d) => Some(d),
            None => if forced.last().0 == key {
                Some(forced.last().1)
            } else {
                None
            },
        }
    }
}

/// Index of the folder that `norm` goes to among `folders` (path, normalized name):
/// the highest score that reaches `threshold` percent, ties going to the longer
/// name, then to the earlier folder.
pub open spec fn best_folder(
    norm: Seq<char>,
    folders: Seq<(Seq<char>, Seq<char>)>,
    threshold: int,
) -> Option<int>
    decreases folders.len(),
{
    if folders.len() == 0 {
        None
    } else {
        let k = folders.len() - 1;
        let prev = best_folder(norm, folders.drop_last(), threshold);
        let s = dice(norm, folders[k].1);
        let better = match prev {
            None => true,
            Some(b) => {
                let c = compare(s, dice(norm, folders[b].1));
                c > 0 || (c == 0 && folders[k].1.len() > folders[b].1.len())
            },
        };
        if reaches(s, threshold) && better {
            Some(k)
        } else {
            prev
        }
    }
}

/// Whether the planner takes up an entry: a file, not excluded, directly under the root.
pub open spec fn is_planned(root: Seq<char>, e: EntryView, excluded: Seq<Seq<char>>) -> bool {
    &&& !e.is_dir
    &&& !excluded.contains(e.path)
    &&& match parent_of(e.path) {
        Some(p) => path_eq(p, root),
        None => false,
    }
}

/// Folders known to the planner, as (path, normalized name), and the plan so far.
pub ghost struct PlanState {
    pub folders: Seq<(Seq<char>, Seq<char>)>,
    pub plan: Seq<OpView>,
}

pub open spec fn folder_candidates(folders: Seq<EntryView>) -> Seq<(Seq<char>, Seq<char>)> {
    folders.map_values(|f: EntryView| (f.path, lower_of(f.name)))
}

pub open spec fn plan_reason() -> Seq<char> {
    "Dice Match"@
}

/// The plan state after one more entry.
pub open spec fn plan_step(
    st: PlanState,
    e: EntryView,
    root: Seq<char>,
    threshold: int,
    excluded: Seq<Seq<char>>,
    forced: Seq<(Seq<char>, Seq<char>)>,
    existing: Seq<Seq<char>>,
) -> PlanState {
    if !is_planned(root, e, excluded) {
        st
    } else {
        let norm = normalized(e.name);
        let fresh = joined(root, norm);
        let dest = match forced_lookup(forced, e.path) {
            Some(d) => d,
            None => match best_folder(norm, st.folders, threshold) {
                Some(b) => st.folders[b].0,
                None => fresh,
            },
        };
        let folders = if forced_lookup(forced, e.path) is None && best_folder(
            norm,
            st.folders,
            threshold,
        ) is None {
            st.folders.push((fresh, norm))
        } else {
            st.folders
        };
        let op = OpView {
            file_name: e.name,
            source_path: e.path,
            destination_folder: dest,
            reason: plan_reason(),
            is_new_folder: !existing.contains(dest),
        };
        PlanState { folders, plan: st.plan.push(op) }
    }
}

/// The plan state after the given entries, in order.
pub open spec fn plan_run(
    files: Seq<EntryView>,
    root: Seq<char>,
    threshold: int,
    excluded: Seq<Seq<char>>,
    forced: Seq<(Seq<char>, Seq<char>)>,
    folders: Seq<EntryView>,
    existing: Seq<Seq<char>>,
) -> PlanState
    decreases files.len(),
{
    if files.len() == 0 {
        PlanState { folders: folder_candidates(folders), plan: Seq::empty() }
    } else {
        plan_step(
            plan_run(files.drop_last(), root, threshold, excluded, forced, folders, existing),
            files.last(),
            root,
            threshold,
            excluded,
            forced,
            existing,
        )
    }
}

/// The sort plan for `files` under `root`.
pub open spec fn sort_plan(
    files: Seq<EntryView>,
    root: Seq<char>,
    threshold: int,
    excluded: Seq<Seq<char>>,
    forced: Seq<(Seq<char>, Seq<char>)>,
    folders: Seq<EntryView>,
    existing: Seq<Seq<char>>,
) -> Seq<OpView> {
    plan_run(files, root, threshold, excluded, forced, folders, existing).plan
}

/// The destination that `forced` gives `key`, if any.
pub fn lookup_forced(forced: &Vec<(String, String)>, key: &str) -> (r: Option<String>)
    ensures
        r matches Some(d) ==> forced_lookup(text_pairs(forced@), key@) == Some(d@),
        r is None ==> forced_lookup(text_pairs(forced@), key@) is None,
{
    let ghost all = text_pairs(forced@);
    let mut i: usize = 0;
    while i < forced.len()
        invariant
            i <= forced.len(),
            all == text_pairs(forced@),
            forced_lookup(all.subrange(0, i as int), key@) is None,
        decreases forced.len() - i,
    {
        let ghost pre = all.subrange(0, i as int);
        assert(all.subrange(0, i + 1).drop_last() =~= pre);
        if crate::similarity::same_text(forced[i].0.as_str(), key) {
            proof {
                lemma_lookup_prefix(all, key@, i as int + 1);
            }
            return Some(forced[i].1.clone());
        }
        i = i + 1;
    }
    assert(all.subrange(0, i as int) =~= all);
    None
}

/// A lookup that succeeds on a prefix gives the same answer on the whole.
proof fn lemma_lookup_prefix(all: Seq<(Seq<char>, Seq<char>)>, key: Seq<char>, n: int)
    requires
        0 <= n <= all.len(),
        forced_lookup(all.subrange(0, n), key) is Some,
    ensures
        forced_lookup(all, key) == forced_lookup(all.subrange(0, n), key),
    decreases all.len() - n,
{
    if n < all.len() {
        assert(all.subrange(0, n + 1).drop_last() =~= all.subrange(0, n));
        lemma_lookup_prefix(all, key, n + 1);
    } else {
        assert(all.subrange(0, n) =~= all);
    }
}

/// Index of the folder in `cands` that `norm` goes to, as `best_folder` says.
pub fn pick_folder(norm: &str, cands: &Vec<(String, String)>, threshold: u8) -> (r: Option<usize>)
    ensures
        r matches Some(b) ==> b < cands.len() && best_folder(
            norm@,
            text_pairs(cands@),
            threshold as int,
        ) == Some(b as int),
        r is None ==> best_folder(norm@, text_pairs(cands@), threshold as int) is None,
{
    let ghost all = text_pairs(cands@);
    let mut best: Option<usize> = None;
    let mut best_score = crate::similarity::Score { common: 0, total: 1 };
    let mut best_len: usize = 0;
    let mut i: usize = 0;
    while i < cands.len()
        invariant
            i <= cands.len(),
            all == text_pairs(cands@),
            best_score.wf(),
            best matches Some(b) ==> b < i && best_score.value() == dice(norm@, all[b as int].1)
                && best_len == all[b as int].1.len(),
            best matches Some(b) ==> best_folder(norm@, all.subrange(0, i as int), threshold as int)
                == Some(b as int),
            best is None ==> best_folder(norm@, all.subrange(0, i as int), threshold as int) is None,
        decreases cands.len() - i,
    {
        let ghost pre = all.subrange(0, i as int);
        let ghost cur = all.subrange(0, i + 1);
        assert(cur.drop_last() =~= pre);
        assert(cur[i as int] == all[i as int]);
        let name = cands[i].1.as_str();
        let s = calculate_similarity(norm, name);
        let len = name.unicode_len();
        let better = match best {
            None => true,
            Some(b) => {
                assert(cur[b as int] == all[b as int]);
                let c = s.compare_to(&best_score);
                c > 0 || (c == 0 && len > best_len)
            },
        };
        if s.meets(threshold) && better {
            best = Some(i);
            best_score = s;
            best_len = len;
        }
        i = i + 1;
    }
    assert(all.subrange(0, i as int) =~= all);
    best
}

/// Whether `path` lies directly under `root`.
pub fn is_root_child(path: &str, root: &str) -> (r: bool)
    ensures
        r == match parent_of(path@) {
            Some(p) => path_eq(p, root@),
            None => false,
        },
{
    match parent_path(path) {
        Some(p) => same_path(p.as_str(), root),
        None => false,
    }
}

/// Builds the sort plan for the crawled `files` under `root`.
///
/// `folders` are the folders directly under `root` and `existing_dirs` the
/// destinations known to exist at planning time; the planner reads nothing else.
/// Files are taken in order; a folder invented for one file is a candidate for
/// the files after it.
pub fn build_sort_plan(
    root: &str,
    files: &Vec<SorterFileEntry>,
    similarity_threshold: u8,
    excluded_paths: &Vec<String>,
    forced_targets: &Vec<(String, String)>,
    folders: &Vec<SorterFileEntry>,
    existing_dirs: &Vec<String>,
) -> (plan: Vec<SortOperation>)
    ensures
        op_views(plan@) == sort_plan(
            entry_views(files@),
            root@,
            similarity_threshold as int,
            texts(excluded_paths@),
            text_pairs(forced_targets@),
            entry_views(folders@),
            texts(existing_dirs@),
        ),
{
    let ghost fv = entry_views(files@);
    let ghost gv = entry_views(folders@);
    let ghost ex = texts(excluded_paths@);
    let ghost fo = text_pairs(forced_targets@);
    let ghost es = texts(existing_dirs@);
    let ghost t = similarity_threshold as int;
    let mut cands: Vec<(String, String)> = Vec::new();
    let mut j: usize = 0;
    while j < folders.len()
        invariant
            j <= folders.len(),
            gv == entry_views(folders@),
            text_pairs(cands@) == folder_candidates(gv.subrange(0, j as int)),
        decreases folders.len() - j,
    {
        let f = &folders[j];
        let norm = lowercase(f.name.as_str());
        let path = f.path.clone();
        cands.push((path, norm));
        assert(gv[j as int] == f@);
        assert(text_pairs(cands@) =~= folder_candidates(gv.subrange(0, j as int)).push(
            (f.path@, lower_of(f.name@)),
        ));
        assert(folder_candidates(gv.subrange(0, j + 1)) =~= folder_candidates(
            gv.subrange(0, j as int),
        ).push((f.path@, lower_of(f.name@))));
        j = j + 1;
    }
    assert(gv.subrange(0, j as int) =~= gv);
    let mut plan: Vec<SortOperation> = Vec::new();
    let mut i: usize = 0;
    assert(fv.subrange(0, 0) =~= Seq::<EntryView>::empty());
    assert(op_views(plan@) =~= Seq::<OpView>::empty());
    while i < files.len()
        invariant
            i <= files.len(),
            fv == entry_views(files@),
            gv == entry_views(folders@),
            ex == texts(excluded_paths@),
            fo == text_pairs(forced_targets@),
            es == texts(existing_dirs@),
            t == similarity_threshold as int,
            text_pairs(cands@) == plan_run(fv.subrange(0, i as int), root@, t, ex, fo, gv, es).folders,
            op_views(plan@) == plan_run(fv.subrange(0, i as int), root@, t, ex, fo, gv, es).plan,
        decreases files.len() - i,
    {
        let ghost pre = fv.subrange(0, i as int);
        let ghost cur = fv.subrange(0, i + 1);
        assert(cur.drop_last() =~= pre);
        let ghost st = plan_run(pre, root@, t, ex, fo, gv, es);
        let file = &files[i];
        assert(cur.last() == file@);
        if !file.is_dir && !contains_text(excluded_paths, file.path.as_str()) && is_root_child(
            file.path.as_str(),
            root,
        ) {
            let norm = normalize_name(file.name.as_str());
            let dest = match lookup_forced(forced_targets, file.path.as_str()) {
                Some(d) => d,
                None => match pick_folder(norm.as_str(), &cands, similarity_threshold) {
                    Some(b) => cands[b].0.clone(),
                    None => {
                        let fresh = join_path(root, norm.as_str());
                        cands.push((fresh.clone(), norm));
                        assert(text_pairs(cands@) =~= st.folders.push((fresh@, normalized(file.name@))));
                        fresh
                    },
                },
            };
            let is_new = !contains_text(existing_dirs, dest.as_str());
            let op = SortOperation {
                file_name: file.name.clone(),
                source_path: file.path.clone(),
                destination_folder: dest,
                reason: String::from_str("Dice Match"),
                is_new_folder: is_new,
            };
            plan.push(op);
            assert(op_views(plan@) =~= st.plan.push(op@));
        }
        i = i + 1;
    }
    assert(fv.subrange(0, i as int) =~= fv);
    plan
}

/// Building the plan twice from the same inputs gives the same plan: planning
/// draws on nothing but its inputs.
pub proof fn lemma_plan_deterministic(
    files: Seq<EntryView>,
    root: Seq<char>,
    threshold: int,
    excluded: Seq<Seq<char>>,
    forced: Seq<(Seq<char>, Seq<char>)>,
    folders: Seq<EntryView>,
    existing: Seq<Seq<char>>,
    first: Seq<OpView>,
    second: Seq<OpView>,
)
    requires
        first == sort_plan(files, root, threshold, excluded, forced, folders, existing),
        second == sort_plan(files, root, threshold, excluded, forced, folders, existing),
    ensures
        first == second,
{
}

/// A file with a forced target is planned to that target, whatever the scores,
/// the threshold and the folders that exist.
pub proof fn lemma_forced_target_wins(
    files: Seq<EntryView>,
    root: Seq<char>,
    threshold: int,
    excluded: Seq<Seq<char>>,
    forced: Seq<(Seq<char>, Seq<char>)>,
    folders: Seq<EntryView>,
    existing: Seq<Seq<char>>,
)
    ensures
        forall|k: int|
            #![trigger sort_plan(files, root, threshold, excluded, forced, folders, existing)[k]]
            0 <= k < sort_plan(files, root, threshold, excluded, forced, folders, existing).len()
                ==> {
                let op = sort_plan(files, root, threshold, excluded, forced, folders, existing)[k];
                forced_lookup(forced, op.source_path) matches Some(d) ==> op.destination_folder
                    == d
            },
    decreases files.len(),
{
    if files.len() > 0 {
        lemma_forced_target_wins(
            files.drop_last(),
            root,
            threshold,
            excluded,
            forced,
            folders,
            existing,
        );
    }
}

/// Destination folders of the plan items that create their folder, in order.
pub open spec fn new_folder_dests(plan: Seq<OpView>) -> Seq<Seq<char>>
    decreases plan.len(),
{
    if plan.len() == 0 {
        Seq::empty()
    } else if plan.last().is_new_folder {
        new_folder_dests(plan.drop_last()).push(plan.last().destination_folder)
    } else {
        new_folder_dests(plan.drop_last())
    }
}

/// Destination folders of all plan items, in order.
pub open spec fn all_dests(plan: Seq<OpView>) -> Seq<Seq<char>> {
    plan.map_values(|o: OpView| o.destination_folder)
}

/// Size of the first entry at `path`.
pub open spec fn size_lookup(files: Seq<EntryView>, path: Seq<char>) -> Option<u64>
    decreases files.len(),
{
    if files.len() == 0 {
        None
    } else {
        match size_lookup(files.drop_last(), path) {
            Some(z) => Some(z),
            None => if files.last().path == path {
                Some(files.last().size)
            } else {
                None
            },
        }
    }
}

/// Bytes that the plan moves: for each item, the size of its source entry (zero
/// when `files` does not list it).
pub open spec fn planned_bytes(plan: Seq<OpView>, files: Seq<EntryView>) -> int
    decreases plan.len(),
{
    if plan.len() == 0 {
        0
    } else {
        planned_bytes(plan.drop_last(), files) + match size_lookup(files, plan.last().source_path) {
            Some(z) => z as int,
            None => 0,
        }
    }
}

/// Size of the first entry of `files` at `path`.
fn lookup_size(files: &Vec<SorterFileEntry>, path: &str) -> (r: Option<u64>)
    ensures
        r == size_lookup(entry_views(files@), path@),
{
    let ghost all = entry_views(files@);
    let mut i: usize = 0;
    while i < files.len()
        invariant
            i <= files.len(),
            all == entry_views(files@),
            size_lookup(all.subrange(0, i as int), path@) is None,
        decreases files.len() - i,
    {
        assert(all.subrange(0, i + 1).drop_last() =~= all.subrange(0, i as int));
        if crate::similarity::same_text(files[i].path.as_str(), path) {
            proof {
                lemma_size_prefix(all, path@, i as int + 1);
            }
            return Some(files[i].size);
        }
        i = i + 1;
    }
    assert(all.subrange(0, i as int) =~= all);
    None
}

proof fn lemma_size_prefix(all: Seq<EntryView>, path: Seq<char>, n: int)
    requires
        0 <= n <= all.len(),
        size_lookup(all.subrange(0, n), path) is Some,
    ensures
        size_lookup(all, path) == size_lookup(all.subrange(0, n), path),
    decreases all.len() - n,
{
    if n < all.len() {
        assert(all.subrange(0, n + 1).drop_last() =~= all.subrange(0, n));
        lemma_size_prefix(all, path, n + 1);
    } else {
        assert(all.subrange(0, n) =~= all);
    }
}

/// Number of distinct texts in `v`.
pub fn count_distinct(v: &Vec<String>) -> (r: usize)
    ensures
        r == texts(v@).to_set().len(),
{
    let ghost all = texts(v@);
    let mut seen: Vec<String> = Vec::new();
    let mut i: usize = 0;
    assert(texts(seen@).to_set() =~= all.subrange(0, 0).to_set());
    while i < v.len()
        invariant
            i <= v.len(),
            all == texts(v@),
            texts(seen@).no_duplicates(),
            texts(seen@).to_set() == all.subrange(0, i as int).to_set(),
            seen.len() == texts(seen@).len(),
        decreases v.len() - i,
    {
        let ghost before = texts(seen@);
        assert(all.subrange(0, i + 1) =~= all.subrange(0, i as int).push(all[i as int]));
        if !contains_text(&seen, v[i].as_str()) {
            seen.push(v[i].clone());
            assert(texts(seen@) =~= before.push(all[i as int]));
            proof {
                before.lemma_push_to_set_commute(all[i as int]);
                all.subrange(0, i as int).lemma_push_to_set_commute(all[i as int]);
            }
            assert(texts(seen@).to_set() =~= all.subrange(0, i + 1).to_set());
        } else {
            let ghost x = all[i as int];
            assert(before.contains(x));
            assert(before.to_set().contains(x));
            assert(all.subrange(0, i as int).to_set().contains(x));
            assert forall|y: Seq<char>| #[trigger]
                all.subrange(0, i + 1).to_set().contains(y) == before.to_set().contains(y) by {
                if y == x {
                } else {
                    if all.subrange(0, i + 1).contains(y) {
                        let k = choose|k: int|
                            0 <= k < i + 1 && #[trigger] all.subrange(0, i + 1)[k] == y;
                        assert(all.subrange(0, i as int)[k] == y);
                    }
                }
            }
            assert(texts(seen@).to_set() =~= all.subrange(0, i + 1).to_set());
        }
        i = i + 1;
    }
    assert(all.subrange(0, i as int) =~= all);
    proof {
        texts(seen@).unique_seq_to_set();
    }
    seen.len()
}

/// Whether `r` holds the totals of `plan`: items, distinct folders to create,
/// bytes moved (capped at `u64::MAX`) and distinct destination folders.
pub open spec fn stats_of(r: SortStats, plan: Seq<OpView>, files: Seq<EntryView>) -> bool {
    &&& r.files_to_move == plan.len()
    &&& r.folders_to_create == new_folder_dests(plan).to_set().len()
    &&& r.total_size_to_move as int == if planned_bytes(plan, files) > u64::MAX {
        u64::MAX as int
    } else {
        planned_bytes(plan, files)
    }
    &&& r.total_folders_affected == all_dests(plan).to_set().len()
}

/// The totals of a plan over the crawled `files`.
pub fn compute_sort_stats(plan: &Vec<SortOperation>, files: &Vec<SorterFileEntry>) -> (r: SortStats)
    ensures
        stats_of(r, op_views(plan@), entry_views(files@)),
{
    let ghost ops = op_views(plan@);
    let ghost fv = entry_views(files@);
    let mut new_dests: Vec<String> = Vec::new();
    let mut dests: Vec<String> = Vec::new();
    let mut bytes: u64 = 0;
    let mut i: usize = 0;
    while i < plan.len()
        invariant
            i <= plan.len(),
            ops == op_views(plan@),
            fv == entry_views(files@),
            texts(new_dests@) == new_folder_dests(ops.subrange(0, i as int)),
            texts(dests@) == all_dests(ops.subrange(0, i as int)),
            bytes as int == if planned_bytes(ops.subrange(0, i as int), fv) > u64::MAX {
                u64::MAX as int
            } else {
                planned_bytes(ops.subrange(0, i as int), fv)
            },
        decreases plan.len() - i,
    {
        let ghost pre = ops.subrange(0, i as int);
        let ghost cur = ops.subrange(0, i + 1);
        assert(cur.drop_last() =~= pre);
        let op = &plan[i];
        assert(cur.last() == op@);
        if op.is_new_folder {
            new_dests.push(op.destination_folder.clone());
            assert(texts(new_dests@) =~= new_folder_dests(pre).push(op.destination_folder@));
        }
        let ghost dbefore = texts(dests@);
        dests.push(op.destination_folder.clone());
        assert(texts(dests@) =~= dbefore.push(op.destination_folder@));
        assert(all_dests(cur) =~= all_dests(pre).push(op.destination_folder@));
        let size = match lookup_size(files, op.source_path.as_str()) {
            Some(z) => z,
            None => 0,
        };
        bytes = bytes.saturating_add(size);
        i = i + 1;
    }
    assert(ops.subrange(0, i as int) =~= ops);
    SortStats {
        files_to_move: plan.len(),
        folders_to_create: count_distinct(&new_dests),
        total_size_to_move: bytes,
        total_folders_affected: count_distinct(&dests),
    }
}

} // verus!
