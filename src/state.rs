//! The sorter's session state: the chosen directory, the last crawl, the
//! preview plan and its totals, and the user's overrides.

use crate::executor::{begin_item, ExecView, Phase, SortExecution};
use crate::models::{
    contains_text, copy_plan, entry_views, op_views, text_pairs, texts, SortOperation, SortStats,
    SorterFileEntry,
};
use crate::planner::{build_sort_plan, compute_sort_stats, forced_lookup, sort_plan, stats_of};
use crate::undo::UndoStack;
use vstd::prelude::*;

verus! {

/// Why a sorter operation could not be done.
#[derive(Clone, Debug, PartialEq, Eq)]
pub enum SorterError {
    /// No directory has been chosen to sort.
    NoFolderSelected,
    /// A filesystem operation failed, with its message.
    Io(String),
}

impl SorterError {
    /// The message shown for the error.
    pub fn message(&self) -> (r: String)
        ensures
            self is NoFolderSelected ==> r@ == "No folder selected"@,
            self matches SorterError::Io(m) ==> r@ == m@,
    {
        match self {
            SorterError::NoFolderSelected => String::from_str("No folder selected"),
            SorterError::Io(m) => m.clone(),
        }
    }
}

/// Default similarity threshold, in percent.
pub const DEFAULT_SIMILARITY_THRESHOLD: u8 = 80;

/// State of the sorter for one session.
#[derive(Clone, Debug)]
pub struct FileSorterState {
    pub current_path: Option<String>,
    pub files: Vec<SorterFileEntry>,
    pub similarity_threshold: u8,
    pub preview: Vec<SortOperation>,
    pub stats: SortStats,
    pub has_restore_point: bool,
    pub excluded_paths: Vec<String>,
    pub forced_targets: Vec<(String, String)>,
}

pub open spec fn zero_stats() -> SortStats {
    SortStats {
        files_to_move: 0,
        folders_to_create: 0,
        total_size_to_move: 0,
        total_folders_affected: 0,
    }
}

/// `s` without the texts equal to `x`.
pub open spec fn without(s: Seq<Seq<char>>, x: Seq<char>) -> Seq<Seq<char>>
    decreases s.len(),
{
    if s.len() == 0 {
        Seq::empty()
    } else if s.last() == x {
        without(s.drop_last(), x)
    } else {
        without(s.drop_last(), x).push(s.last())
    }
}

/// `s` without the pairs whose first text is `x`.
pub open spec fn pairs_without(s: Seq<(Seq<char>, Seq<char>)>, x: Seq<char>) -> Seq<
    (Seq<char>, Seq<char>),
>
    decreases s.len(),
{
    if s.len() == 0 {
        Seq::empty()
    } else if s.last().0 == x {
        pairs_without(s.drop_last(), x)
    } else {
        pairs_without(s.drop_last(), x).push(s.last())
    }
}

proof fn lemma_pairs_without_lookup(s: Seq<(Seq<char>, Seq<char>)>, x: Seq<char>, k: Seq<char>)
    ensures
        forced_lookup(pairs_without(s, x), k) == if k == x {
            None
        } else {
            forced_lookup(s, k)
        },
    decreases s.len(),
{
    if s.len() > 0 {
        lemma_pairs_without_lookup(s.drop_last(), x, k);
        if s.last().0 != x {
            assert(pairs_without(s, x).drop_last() =~= pairs_without(s.drop_last(), x));
        }
    }
}

proof fn lemma_lookup_push_absent(s: Seq<(Seq<char>, Seq<char>)>, x: Seq<char>, d: Seq<char>, k: Seq<char>)
    requires
        forced_lookup(s, x) is None,
    ensures
        forced_lookup(s.push((x, d)), k) == if k == x {
            Some(d)
        } else {
            forced_lookup(s, k)
        },
{
    assert(s.push((x, d)).drop_last() =~= s);
}

impl Default for FileSorterState {
    fn default() -> (r: Self)
        ensures
            r.current_path is None,
            r.files@.len() == 0,
            r.similarity_threshold == DEFAULT_SIMILARITY_THRESHOLD,
            r.preview@.len() == 0,
            r.stats == zero_stats(),
            !r.has_restore_point,
            r.excluded_paths@.len() == 0,
            r.forced_targets@.len() == 0,
    {
        FileSorterState {
            current_path: None,
            files: Vec::new(),
            similarity_threshold: DEFAULT_SIMILARITY_THRESHOLD,
            preview: Vec::new(),
            stats: SortStats {
                files_to_move: 0,
                folders_to_create: 0,
                total_size_to_move: 0,
                total_folders_affected: 0,
            },
            has_restore_point: false,
            excluded_paths: Vec::new(),
            forced_targets: Vec::new(),
        }
    }
}

impl FileSorterState {
    /// Sets the similarity threshold, in percent.
    pub fn set_similarity_threshold(&mut self, threshold: u8)
        ensures
            *final(self) == (FileSorterState { similarity_threshold: threshold, ..*old(self) }),
    {
        self.similarity_threshold = threshold;
    }

    /// Keeps `path` out of future plans.
    pub fn exclude_path(&mut self, path: String)
        ensures
            texts(final(self).excluded_paths@) == if texts(old(self).excluded_paths@).contains(
                path@,
            ) {
                texts(old(self).excluded_paths@)
            } else {
                texts(old(self).excluded_paths@).push(path@)
            },
            texts(final(self).excluded_paths@).to_set() == texts(
                old(self).excluded_paths@,
            ).to_set().insert(path@),
    {
        let ghost before = texts(self.excluded_paths@);
        if !contains_text(&self.excluded_paths, path.as_str()) {
            let ghost p = path@;
            self.excluded_paths.push(path);
            assert(texts(self.excluded_paths@) =~= before.push(p));
            proof {
                before.lemma_push_to_set_commute(p);
            }
        } else {
            assert(before.to_set().insert(path@) =~= before.to_set());
        }
    }

    /// Lets `path` into plans again.
    pub fn include_path(&mut self, path: &str)
        ensures
            texts(final(self).excluded_paths@) == without(texts(old(self).excluded_paths@), path@),
    {
        let ghost all = texts(self.excluded_paths@);
        let mut kept: Vec<String> = Vec::new();
        let mut i: usize = 0;
        while i < self.excluded_paths.len()
            invariant
                i <= self.excluded_paths.len(),
                all == texts(self.excluded_paths@),
                texts(kept@) == without(all.subrange(0, i as int), path@),
            decreases self.excluded_paths.len() - i,
        {
            assert(all.subrange(0, i + 1).drop_last() =~= all.subrange(0, i as int));
            let ghost before = texts(kept@);
            if !crate::similarity::same_text(self.excluded_paths[i].as_str(), path) {
                kept.push(self.excluded_paths[i].clone());
                assert(texts(kept@) =~= before.push(all[i as int]));
            }
            i = i + 1;
        }
        assert(all.subrange(0, i as int) =~= all);
        self.excluded_paths = kept;
    }

    /// Drops the forced target of `path`; says whether it had one.
    pub fn clear_forced_target(&mut self, path: &str) -> (r: bool)
        ensures
            r == forced_lookup(text_pairs(old(self).forced_targets@), path@) is Some,
            text_pairs(final(self).forced_targets@) == pairs_without(
                text_pairs(old(self).forced_targets@),
                path@,
            ),
            forall|k: Seq<char>|
                #![trigger forced_lookup(text_pairs(final(self).forced_targets@), k)]
                forced_lookup(text_pairs(final(self).forced_targets@), k) == if k == path@ {
                    None
                } else {
                    forced_lookup(text_pairs(old(self).forced_targets@), k)
                },
    {
        let ghost all = text_pairs(self.forced_targets@);
        let had = crate::planner::lookup_forced(&self.forced_targets, path).is_some();
        let mut kept: Vec<(String, String)> = Vec::new();
        let mut i: usize = 0;
        while i < self.forced_targets.len()
            invariant
                i <= self.forced_targets.len(),
                all == text_pairs(self.forced_targets@),
                text_pairs(kept@) == pairs_without(all.subrange(0, i as int), path@),
            decreases self.forced_targets.len() - i,
        {
            assert(all.subrange(0, i + 1).drop_last() =~= all.subrange(0, i as int));
            let ghost before = text_pairs(kept@);
            let pair = &self.forced_targets[i];
            if !crate::similarity::same_text(pair.0.as_str(), path) {
                kept.push((pair.0.clone(), pair.1.clone()));
                assert(text_pairs(kept@) =~= before.push(all[i as int]));
            }
            i = i + 1;
        }
        assert(all.subrange(0, i as int) =~= all);
        self.forced_targets = kept;
        proof {
            assert forall|k: Seq<char>|
                #![trigger forced_lookup(text_pairs(self.forced_targets@), k)]
                forced_lookup(text_pairs(self.forced_targets@), k) == if k == path@ {
                    None
                } else {
                    forced_lookup(all, k)
                } by {
                lemma_pairs_without_lookup(all, path@, k);
            }
        }
        had
    }

    /// Sends `path` to `destination` whatever the scores, in place of any
    /// earlier forced target.
    pub fn set_forced_target(&mut self, path: String, destination: String)
        ensures
            text_pairs(final(self).forced_targets@) == pairs_without(
                text_pairs(old(self).forced_targets@),
                path@,
            ).push((path@, destination@)),
            forall|k: Seq<char>|
                #![trigger forced_lookup(text_pairs(final(self).forced_targets@), k)]
                forced_lookup(text_pairs(final(self).forced_targets@), k) == if k == path@ {
                    Some(destination@)
                } else {
                    forced_lookup(text_pairs(old(self).forced_targets@), k)
                },
    {
        let ghost all = text_pairs(self.forced_targets@);
        self.clear_forced_target(path.as_str());
        let ghost mid = text_pairs(self.forced_targets@);
        let ghost p = path@;
        let ghost d = destination@;
        self.forced_targets.push((path, destination));
        assert(text_pairs(self.forced_targets@) =~= mid.push((p, d)));
        proof {
            assert forall|k: Seq<char>|
                #![trigger forced_lookup(text_pairs(self.forced_targets@), k)]
                forced_lookup(text_pairs(self.forced_targets@), k) == if k == p {
                    Some(d)
                } else {
                    forced_lookup(all, k)
                } by {
                lemma_pairs_without_lookup(all, p, p);
                lemma_lookup_push_absent(mid, p, d, k);
                lemma_pairs_without_lookup(all, p, k);
            }
        }
    }

    /// Takes a fresh crawl of the chosen directory and plans it: `entries` are
    /// the crawled entries, `folders` the folders directly under the directory
    /// and `existing_dirs` the destinations known to exist.
    pub fn get_sort_preview(
        &mut self,
        entries: Vec<SorterFileEntry>,
        folders: &Vec<SorterFileEntry>,
        existing_dirs: &Vec<String>,
    ) -> (r: Result<(), SorterError>)
        ensures
            old(self).current_path is None ==> r == Err::<(), SorterError>(
                SorterError::NoFolderSelected,
            ) && *final(self) == *old(self),
            old(self).current_path matches Some(root) ==> {
                &&& r is Ok
                &&& final(self).files@ == entries@
                &&& op_views(final(self).preview@) == sort_plan(
                    entry_views(entries@),
                    root@,
                    old(self).similarity_threshold as int,
                    texts(old(self).excluded_paths@),
                    text_pairs(old(self).forced_targets@),
                    entry_views(folders@),
                    texts(existing_dirs@),
                )
                &&& stats_of(final(self).stats, op_views(final(self).preview@), entry_views(entries@))
                &&& final(self).current_path == old(self).current_path
                &&& final(self).similarity_threshold == old(self).similarity_threshold
                &&& final(self).has_restore_point == old(self).has_restore_point
                &&& final(self).excluded_paths == old(self).excluded_paths
                &&& final(self).forced_targets == old(self).forced_targets
            },
    {
        let root = match &self.current_path {
            Some(p) => p.clone(),
            None => {
                return Err(SorterError::NoFolderSelected);
            },
        };
        let plan = build_sort_plan(
            root.as_str(),
            &entries,
            self.similarity_threshold,
            &self.excluded_paths,
            &self.forced_targets,
            folders,
            existing_dirs,
        );
        let stats = compute_sort_stats(&plan, &entries);
        self.files = entries;
        self.preview = plan;
        self.stats = stats;
        Ok(())
    }

    /// Starts executing the preview plan; with no plan there is nothing to do.
    pub fn begin_sort(&self) -> (r: Option<SortExecution>)
        ensures
            r is None <==> self.preview@.len() == 0,
            r matches Some(e) ==> e.wf() && e.view() == begin_item(
                ExecView {
                    plan: op_views(self.preview@),
                    index: 0,
                    attempt: 0,
                    phase: Phase::Finished,
                    moves: Seq::empty(),
                    error: None,
                },
                0,
            ),
    {
        if self.preview.len() == 0 {
            return None;
        }
        Some(SortExecution::new(copy_plan(&self.preview)))
    }

    /// Records an executed sort: its moves become the newest restore point and
    /// the preview is cleared.
    pub fn finish_sort(&mut self, undo: &mut UndoStack, moves: Vec<(String, String)>)
        ensures
            final(undo)@ == old(undo)@.push(text_pairs(moves@)),
            final(self).has_restore_point,
            final(self).preview@.len() == 0,
            final(self).stats == zero_stats(),
            final(self).current_path == old(self).current_path,
            final(self).files == old(self).files,
            final(self).similarity_threshold == old(self).similarity_threshold,
            final(self).excluded_paths == old(self).excluded_paths,
            final(self).forced_targets == old(self).forced_targets,
    {
        undo.push(moves);
        self.has_restore_point = true;
        self.preview = Vec::new();
        self.stats = SortStats {
            files_to_move: 0,
            folders_to_create: 0,
            total_size_to_move: 0,
            total_folders_affected: 0,
        };
    }

    /// Records that a restore has been done: a restore point is left only if
    /// the stack still holds a sort.
    pub fn finish_restore(&mut self, undo: &UndoStack)
        ensures
            *final(self) == (FileSorterState {
                has_restore_point: undo@.len() > 0,
                ..*old(self)
            }),
    {
        self.has_restore_point = !undo.is_empty();
    }
}

} // verus!
