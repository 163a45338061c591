//! Data handled by the sorter: crawled entries, plan items and plan statistics.

use vstd::prelude::*;

verus! {

/// One entry that the crawler reports under the sorted directory.
#[derive(Clone, Debug, PartialEq, Eq)]
pub struct SorterFileEntry {
    pub path: String,
    pub name: String,
    pub is_dir: bool,
    pub size: u64,
}

pub ghost struct EntryView {
    pub path: Seq<char>,
    pub name: Seq<char>,
    pub is_dir: bool,
    pub size: u64,
}

impl View for SorterFileEntry {
    type V = EntryView;

    open spec fn view(&self) -> EntryView {
        EntryView { path: self.path@, name: self.name@, is_dir: self.is_dir, size: self.size }
    }
}

/// One planned move: a file and the folder it goes to.
#[derive(Clone, Debug, PartialEq, Eq)]
pub struct SortOperation {
    pub file_name: String,
    pub source_path: String,
    pub destination_folder: String,
    pub reason: String,
    pub is_new_folder: bool,
}

pub ghost struct OpView {
    pub file_name: Seq<char>,
    pub source_path: Seq<char>,
    pub destination_folder: Seq<char>,
    pub reason: Seq<char>,
    pub is_new_folder: bool,
}

impl View for SortOperation {
    type V = OpView;

    open spec fn view(&self) -> OpView {
        OpView {
            file_name: self.file_name@,
            source_path: self.source_path@,
            destination_folder: self.destination_folder@,
            reason: self.reason@,
            is_new_folder: self.is_new_folder,
        }
    }
}

impl SortOperation {
    /// A copy of the plan item.
    pub fn duplicate(&self) -> (r: SortOperation)
        ensures
            r@ == self@,
    {
        SortOperation {
            file_name: self.file_name.clone(),
            source_path: self.source_path.clone(),
            destination_folder: self.destination_folder.clone(),
            reason: self.reason.clone(),
            is_new_folder: self.is_new_folder,
        }
    }
}

/// A copy of a plan.
pub fn copy_plan(plan: &Vec<SortOperation>) -> (r: Vec<SortOperation>)
    ensures
        op_views(r@) == op_views(plan@),
{
    let mut out: Vec<SortOperation> = Vec::new();
    let mut i: usize = 0;
    while i < plan.len()
        invariant
            i <= plan.len(),
            op_views(out@) == op_views(plan@.subrange(0, i as int)),
        decreases plan.len() - i,
    {
        let ghost before = op_views(out@);
        out.push(plan[i].duplicate());
        assert(op_views(out@) =~= before.push(plan@[i as int]@));
        assert(op_views(plan@.subrange(0, i + 1)) =~= op_views(plan@.subrange(0, i as int)).push(
            plan@[i as int]@,
        ));
        i = i + 1;
    }
    assert(plan@.subrange(0, i as int) =~= plan@);
    out
}

/// Totals shown beside a plan.
#[derive(Clone, Copy, Debug, PartialEq, Eq)]
pub struct SortStats {
    pub files_to_move: usize,
    pub folders_to_create: usize,
    pub total_size_to_move: u64,
    pub total_folders_affected: usize,
}

/// One executed move, as kept in a sort history.
#[derive(Clone, Debug, PartialEq, Eq)]
pub struct MoveRecord {
    pub from: String,
    pub to: String,
}

/// A past sort: when, under which directory, and its moves.
#[derive(Clone, Debug, PartialEq, Eq)]
pub struct SortHistoryRecord {
    pub timestamp: String,
    pub original_path: String,
    pub moves: Vec<MoveRecord>,
}

pub open spec fn texts(v: Seq<String>) -> Seq<Seq<char>> {
    v.map_values(|s: String| s@)
}

pub open spec fn text_pairs(v: Seq<(String, String)>) -> Seq<(Seq<char>, Seq<char>)> {
    v.map_values(|p: (String, String)| (p.0@, p.1@))
}

pub open spec fn entry_views(v: Seq<SorterFileEntry>) -> Seq<EntryView> {
    v.map_values(|e: SorterFileEntry| e@)
}

pub open spec fn op_views(v: Seq<SortOperation>) -> Seq<OpView> {
    v.map_values(|o: SortOperation| o@)
}

/// Whether `v` holds the text `s`.
pub fn contains_text(v: &Vec<String>, s: &str) -> (r: bool)
    ensures
        r == texts(v@).contains(s@),
{
    let mut i: usize = 0;
    while i < v.len()
        invariant
            i <= v.len(),
            forall|k: int| 0 <= k < i ==> v@[k]@ != s@,
        decreases v.len() - i,
    {
        if crate::similarity::same_text(v[i].as_str(), s) {
            assert(texts(v@)[i as int] == s@);
            return true;
        }
        i = i + 1;
    }
    proof {
        if texts(v@).contains(s@) {
            let k = choose|k: int| 0 <= k < texts(v@).len() && texts(v@)[k] == s@;
            assert(v@[k]@ == s@);
        }
    }
    false
}

} // verus!
