//! State of the file randomiser: the folders to draw from, the files found in
//! them, what was opened, and the pick history.

use crate::filters::{excluded_by, should_exclude, FilterRule};
use crate::paths::{file_name, file_name_of};
use crate::selection::{
    available, file_views, pick_random_file, record_pick, FileEntry, FileView, PickHistory,
    MAX_CANDIDATES, WEIGHT_SCALE,
};
use crate::text::{occurs_at, text_starts_with};
use vstd::prelude::*;

verus! {

/// A folder that files are drawn from.
#[derive(Clone, Debug, PartialEq, Eq)]
pub struct SavedPath {
    pub id: u64,
    pub name: String,
    pub path: String,
}

/// A file that was opened, and when (milliseconds since the Unix epoch).
#[derive(Clone, Debug, PartialEq, Eq)]
pub struct HistoryEntry {
    pub id: u64,
    pub name: String,
    pub path: String,
    pub opened_at: i64,
}

/// The randomiser's state for one session.
#[derive(Clone, Debug)]
pub struct AppStateData {
    pub paths: Vec<SavedPath>,
    pub files: Vec<FileEntry>,
    pub history: Vec<HistoryEntry>,
    pub tracking_enabled: bool,
    pub filter_rules: Vec<FilterRule>,
    pub pick_history: PickHistory,
}

/// The ids of saved paths, in order.
pub open spec fn path_ids(v: Seq<SavedPath>) -> Seq<u64> {
    v.map_values(|p: SavedPath| p.id)
}

/// `v` without the saved paths whose id is `id`.
pub open spec fn without_id(v: Seq<SavedPath>, id: u64) -> Seq<SavedPath>
    decreases v.len(),
{
    if v.len() == 0 {
        Seq::empty()
    } else if v.last().id == id {
        without_id(v.drop_last(), id)
    } else {
        without_id(v.drop_last(), id).push(v.last())
    }
}

/// The name shown for a saved folder: its final component, or `unknown`.
pub open spec fn folder_label(path: Seq<char>) -> Seq<char> {
    match file_name_of(path) {
        Some(n) => n,
        None => "unknown"@,
    }
}

/// The file list that a crawl gives: the found (path, name) pairs in order,
/// numbered from one, each marked by the filter rules.
pub open spec fn crawled_files(found: Seq<(Seq<char>, Seq<char>)>, rules: Seq<FilterRule>) -> Seq<
    FileView,
> {
    Seq::new(
        found.len(),
        |k: int|
            FileView {
                id: (k + 1) as u64,
                name: found[k].1,
                path: found[k].0,
                excluded: excluded_by(found[k].0, rules),
            },
    )
}

/// Whether a file name marks a hidden file: it starts with a dot.
pub fn is_hidden_name(name: &str) -> (r: bool)
    ensures
        r == occurs_at(name@, "."@, 0),
{
    text_starts_with(name, ".")
}

impl AppStateData {
    /// A state with nothing saved, found or opened.
    pub fn new() -> (r: AppStateData)
        ensures
            r.paths@.len() == 0,
            r.files@.len() == 0,
            r.history@.len() == 0,
            !r.tracking_enabled,
            r.filter_rules@.len() == 0,
    {
        AppStateData {
            paths: Vec::new(),
            files: Vec::new(),
            history: Vec::new(),
            tracking_enabled: false,
            filter_rules: Vec::new(),
            pick_history: PickHistory::new(),
        }
    }

    /// Saves `folder` to draw from; its id is one more than the number of
    /// saved folders.
    pub fn add_path(&mut self, folder: String) -> (r: SavedPath)
        requires
            old(self).paths@.len() < u64::MAX,
        ensures
            r.id == old(self).paths@.len() + 1,
            r.path@ == folder@,
            r.name@ == folder_label(folder@),
            final(self).paths@ == old(self).paths@.push(r),
            final(self).files == old(self).files,
            final(self).history == old(self).history,
    {
        let name = match file_name(folder.as_str()) {
            Some(n) => n,
            None => String::from_str("unknown"),
        };
        let id = self.paths.len() as u64 + 1;
        let saved = SavedPath { id, name, path: folder };
        let copy = SavedPath { id, name: saved.name.clone(), path: saved.path.clone() };
        self.paths.push(saved);
        copy
    }

    /// Forgets the saved folders with id `id`; says whether there was one.
    pub fn remove_path(&mut self, id: u64) -> (r: bool)
        ensures
            final(self).paths@ == without_id(old(self).paths@, id),
            r == path_ids(old(self).paths@).contains(id),
    {
        let ghost all = self.paths@;
        let mut kept: Vec<SavedPath> = Vec::new();
        let mut removed = false;
        let mut i: usize = 0;
        while i < self.paths.len()
            invariant
                i <= self.paths.len(),
                all == self.paths@,
                kept@ == without_id(all.subrange(0, i as int), id),
                removed == path_ids(all.subrange(0, i as int)).contains(id),
            decreases self.paths.len() - i,
        {
            let ghost pre = all.subrange(0, i as int);
            let ghost cur = all.subrange(0, i + 1);
            assert(cur.drop_last() =~= pre);
            assert(path_ids(cur) =~= path_ids(pre).push(all[i as int].id));
            let p = &self.paths[i];
            if p.id != id {
                kept.push(SavedPath { id: p.id, name: p.name.clone(), path: p.path.clone() });
            } else {
                removed = true;
            }
            proof {
                if all[i as int].id != id {
                    assert(!(path_ids(pre).push(all[i as int].id).contains(id)) == !path_ids(
                        pre,
                    ).contains(id)) by {
                        if path_ids(pre).push(all[i as int].id).contains(id) {
                            let k = choose|k: int|
                                0 <= k < path_ids(pre).len() + 1 && #[trigger] path_ids(
                                    pre,
                                ).push(all[i as int].id)[k] == id;
                            assert(k < path_ids(pre).len());
                            assert(path_ids(pre)[k] == id);
                        }
                        if path_ids(pre).contains(id) {
                            let k = choose|k: int|
                                0 <= k < path_ids(pre).len() && #[trigger] path_ids(pre)[k] == id;
                            assert(path_ids(pre).push(all[i as int].id)[k] == id);
                        }
                    }
                } else {
                    assert(path_ids(pre).push(all[i as int].id)[i as int] == id);
                }
            }
            i = i + 1;
        }
        assert(all.subrange(0, i as int) =~= all);
        self.paths = kept;
        removed
    }

    /// The file with id `id`, if one was found.
    pub fn find_file(&self, id: u64) -> (r: Option<FileEntry>)
        ensures
            r is None ==> forall|k: int| 0 <= k < self.files@.len() ==> #[trigger] self.files@[k].id
                != id,
            r matches Some(f) ==> exists|k: int|
                0 <= k < self.files@.len() && #[trigger] self.files@[k]@ == f@ && f.id == id && (
                forall|j: int| 0 <= j < k ==> #[trigger] self.files@[j].id != id),
    {
        let mut i: usize = 0;
        while i < self.files.len()
            invariant
                i <= self.files.len(),
                forall|j: int| 0 <= j < i ==> #[trigger] self.files@[j].id != id,
            decreases self.files.len() - i,
        {
            if self.files[i].id == id {
                return Some(self.files[i].duplicate());
            }
            i = i + 1;
        }
        None
    }

    /// Records that a file was opened at `opened_at`.
    pub fn record_open(&mut self, id: u64, name: String, path: String, opened_at: i64)
        ensures
            final(self).history@ == old(self).history@.push(
                HistoryEntry { id, name, path, opened_at },
            ),
            final(self).files == old(self).files,
            final(self).paths == old(self).paths,
    {
        self.history.push(HistoryEntry { id, name, path, opened_at });
    }

    /// Replaces the file list by a crawl's findings, given as (path, name) in
    /// the order found: ids count from one, and the filter rules mark each file.
    pub fn set_files_from_crawl(&mut self, found: &Vec<(String, String)>)
        requires
            found@.len() < u64::MAX,
        ensures
            file_views(final(self).files@) == crawled_files(
                crate::models::text_pairs(found@),
                old(self).filter_rules@,
            ),
            final(self).filter_rules == old(self).filter_rules,
            final(self).paths == old(self).paths,
            final(self).history == old(self).history,
    {
        let ghost fp = crate::models::text_pairs(found@);
        let mut files: Vec<FileEntry> = Vec::new();
        let mut k: usize = 0;
        while k < found.len()
            invariant
                k <= found.len(),
                found@.len() < u64::MAX,
                fp == crate::models::text_pairs(found@),
                file_views(files@) == crawled_files(fp, self.filter_rules@).subrange(0, k as int),
            decreases found.len() - k,
        {
            let pair = &found[k];
            let excluded = should_exclude(pair.0.as_str(), &self.filter_rules);
            let ghost before = file_views(files@);
            assert(fp[k as int] == (pair.0@, pair.1@));
            files.push(
                FileEntry {
                    id: k as u64 + 1,
                    name: pair.1.clone(),
                    path: pair.0.clone(),
                    excluded,
                },
            );
            assert(file_views(files@) =~= before.push(crawled_files(fp, self.filter_rules@)[k as int]));
            assert(file_views(files@) =~= crawled_files(fp, self.filter_rules@).subrange(
                0,
                k + 1,
            ));
            k = k + 1;
        }
        assert(crawled_files(fp, self.filter_rules@).subrange(0, k as int) =~= crawled_files(
            fp,
            self.filter_rules@,
        ));
        self.files = files;
    }

    /// Picks a file as the selection engine does, from this state's files and
    /// pick history.
    pub fn pick(&mut self, randomness: u8, curve: u32) -> (r: Option<FileEntry>)
        requires
            randomness <= 100,
            curve <= WEIGHT_SCALE,
        ensures
            ({
                let av = available(file_views(old(self).files@));
                &&& final(self).files == old(self).files
                &&& final(self).paths == old(self).paths
                &&& final(self).history == old(self).history
                &&& r is None ==> final(self).pick_history == old(self).pick_history
                &&& (0 < av.len() <= MAX_CANDIDATES) ==> r is Some
                &&& av.len() == 0 ==> r is None
                &&& r matches Some(f) ==> exists|i: int|
                    0 <= i < av.len() && #[trigger] av[i] == f@ && final(self).pick_history@
                        == record_pick(old(self).pick_history@, f.id, i as usize)
            }),
    {
        pick_random_file(&self.files, &mut self.pick_history, randomness, curve)
    }
}

} // verus!
