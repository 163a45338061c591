use powertoys::executor::{collision_candidate, decimal_text, MoveEvent, MoveStep, SortExecution};
use powertoys::models::{SortOperation, SorterFileEntry};
use powertoys::paths::normalize_name;
use powertoys::planner::{build_sort_plan, compute_sort_stats, count_distinct};
use powertoys::similarity::{calculate_similarity, Score};
use powertoys::state::{FileSorterState, SorterError};
use powertoys::undo::{cleanup_folders, restore_moves, UndoStack};
use std::collections::HashSet;

fn file(path: &str, size: u64) -> SorterFileEntry {
    let name = path.rsplit('/').next().unwrap().to_string();
    SorterFileEntry { path: path.to_string(), name, is_dir: false, size }
}

fn dir(path: &str) -> SorterFileEntry {
    let name = path.rsplit('/').next().unwrap().to_string();
    SorterFileEntry { path: path.to_string(), name, is_dir: true, size: 0 }
}

fn s(x: &str) -> String {
    x.to_string()
}

fn ratio(sc: &Score) -> f64 {
    2.0 * sc.common as f64 / sc.total as f64
}

#[test]
fn similarity_bounds_hold() {
    let pairs = [("invoice", "invoices"), ("abc", "xyz"), ("a", ""), ("", "b"), ("", ""), ("aab", "ab")];
    for (a, b) in pairs {
        let sc = calculate_similarity(a, b);
        let v = ratio(&sc);
        assert!((0.0..=1.0).contains(&v), "{} {} {}", a, b, v);
    }
    let same = calculate_similarity("receipt", "receipt");
    assert_eq!(2 * same.common, same.total);
    let empty = calculate_similarity("receipt", "");
    assert_eq!(empty.common, 0);
    let both_empty = calculate_similarity("", "");
    assert_eq!(2 * both_empty.common, both_empty.total);
}

#[test]
fn similarity_is_symmetric() {
    let pairs = [("invoice_jan", "invoices"), ("receipt", "invoices"), ("aabbc", "abcc"), ("x", "yx")];
    for (a, b) in pairs {
        let ab = calculate_similarity(a, b);
        let ba = calculate_similarity(b, a);
        assert_eq!((ab.common, ab.total), (ba.common, ba.total));
    }
}

#[test]
fn similarity_counts_repeated_letters_once_each() {
    // 'a','a','b' against 'a','b': two matches over five letters.
    let sc = calculate_similarity("aab", "ab");
    assert_eq!((sc.common, sc.total), (2, 5));
    let sc = calculate_similarity("invoice_jan", "invoices");
    assert_eq!((sc.common, sc.total), (7, 19));
    let sc = calculate_similarity("receipt", "invoices");
    assert_eq!((sc.common, sc.total), (3, 15));
}

#[test]
fn score_comparison_and_threshold() {
    let a = Score { common: 7, total: 19 };
    let b = Score { common: 3, total: 15 };
    assert_eq!(a.compare_to(&b), 1);
    assert_eq!(b.compare_to(&a), -1);
    assert_eq!(Score { common: 1, total: 2 }.compare_to(&Score { common: 3, total: 6 }), 0);
    assert!(a.meets(60));
    assert!(!b.meets(60));
    assert!(Score { common: 3, total: 10 }.meets(60));
    assert!(!Score { common: 3, total: 10 }.meets(61));
    let big = Score { common: u64::MAX as u128, total: (u64::MAX as u128) * 2 + 1 };
    let one = Score { common: 1, total: 2 };
    assert_eq!(big.compare_to(&one), -1);
    assert_eq!(one.compare_to(&big), 1);
}

#[test]
fn normalize_strips_extension_lowercases_and_trims() {
    assert_eq!(normalize_name("Invoice_Jan.pdf"), "invoice_jan");
    assert_eq!(normalize_name("  Report .TXT"), "report");
    assert_eq!(normalize_name("README"), "readme");
    assert_eq!(normalize_name(".bashrc"), ".bashrc");
    assert_eq!(normalize_name("archive.tar.gz"), "archive.tar");
}

fn plan_r(files: &Vec<SorterFileEntry>, threshold: u8, excluded: &Vec<String>, forced: &Vec<(String, String)>) -> Vec<SortOperation> {
    let folders = vec![dir("/R/Invoices")];
    let existing = vec![s("/R/Invoices")];
    build_sort_plan("/R", files, threshold, excluded, forced, &folders, &existing)
}

#[test]
fn invoices_and_receipt_scenario() {
    let files = vec![
        file("/R/Invoice_Jan.pdf", 10),
        file("/R/Invoice_Feb.pdf", 20),
        file("/R/Receipt.pdf", 5),
        dir("/R/Invoices"),
    ];
    let plan = plan_r(&files, 60, &vec![], &vec![]);
    assert_eq!(plan.len(), 3);
    assert_eq!(plan[0].file_name, "Invoice_Jan.pdf");
    assert_eq!(plan[0].destination_folder, "/R/Invoices");
    assert!(!plan[0].is_new_folder);
    assert_eq!(plan[1].source_path, "/R/Invoice_Feb.pdf");
    assert_eq!(plan[1].destination_folder, "/R/Invoices");
    assert!(!plan[1].is_new_folder);
    assert_eq!(plan[2].destination_folder, "/R/receipt");
    assert!(plan[2].is_new_folder);
    assert_eq!(plan[2].reason, "Dice Match");
    let stats = compute_sort_stats(&plan, &files);
    assert_eq!(stats.files_to_move, 3);
    assert_eq!(stats.folders_to_create, 1);
    assert_eq!(stats.total_size_to_move, 35);
    assert_eq!(stats.total_folders_affected, 2);
}

#[test]
fn planning_twice_gives_the_same_plan() {
    let files = vec![file("/R/a.txt", 1), file("/R/b.txt", 2), file("/R/ab.txt", 3)];
    let first = plan_r(&files, 50, &vec![], &vec![]);
    let second = plan_r(&files, 50, &vec![], &vec![]);
    assert_eq!(first, second);
}

#[test]
fn forced_target_wins_at_threshold_hundred() {
    let files = vec![file("/R/Invoice_Jan.pdf", 1), file("/R/zzz.bin", 1)];
    let forced = vec![(s("/R/zzz.bin"), s("/elsewhere/bin")), (s("/R/Invoice_Jan.pdf"), s("/R/Other"))];
    let plan = plan_r(&files, 100, &vec![], &forced);
    assert_eq!(plan[0].destination_folder, "/R/Other");
    assert!(plan[0].is_new_folder);
    assert_eq!(plan[1].destination_folder, "/elsewhere/bin");
}

#[test]
fn excluded_nested_and_directories_are_not_planned() {
    let files = vec![
        file("/R/keep.txt", 1),
        file("/R/skip.txt", 1),
        file("/R/Invoices/inside.pdf", 1),
        dir("/R/Invoices"),
    ];
    let plan = plan_r(&files, 60, &vec![s("/R/skip.txt")], &vec![]);
    assert_eq!(plan.len(), 1);
    assert_eq!(plan[0].source_path, "/R/keep.txt");
}

#[test]
fn unmatched_similar_files_share_a_new_folder() {
    let files = vec![file("/R/holiday.jpg", 1), file("/R/holidays.jpg", 1)];
    let plan = build_sort_plan("/R", &files, 80, &vec![], &vec![], &vec![], &vec![]);
    assert_eq!(plan[0].destination_folder, "/R/holiday");
    assert_eq!(plan[1].destination_folder, "/R/holiday");
    assert!(plan[1].is_new_folder);
    let stats = compute_sort_stats(&plan, &files);
    assert_eq!(stats.folders_to_create, 1);
}

#[test]
fn ties_go_to_the_longer_folder_name() {
    // "ab" scores 2*2/(2+4) = 2/3 against both "abxy" and "abzz": with equal
    // lengths the earlier folder keeps the tie.
    let folders = vec![dir("/R/abxy"), dir("/R/abzz")];
    let files = vec![file("/R/ab.txt", 1)];
    let plan = build_sort_plan("/R", &files, 10, &vec![], &vec![], &folders, &vec![]);
    assert_eq!(plan[0].destination_folder, "/R/abxy");
    let folders = vec![dir("/R/a"), dir("/R/abab")];
    // "ab" vs "a": 2/3; vs "abab": 4/6 = 2/3: equal, "abab" is longer.
    let plan = build_sort_plan("/R", &files, 10, &vec![], &vec![], &folders, &vec![]);
    assert_eq!(plan[0].destination_folder, "/R/abab");
}

#[test]
fn distinct_counting() {
    assert_eq!(count_distinct(&vec![s("a"), s("b"), s("a")]), 2);
    assert_eq!(count_distinct(&vec![]), 0);
}

#[test]
fn collision_names_keep_the_extension() {
    assert_eq!(collision_candidate("/d", "photo.jpg", 0), "/d/photo.jpg");
    assert_eq!(collision_candidate("/d", "photo.jpg", 2), "/d/photo (2).jpg");
    assert_eq!(collision_candidate("/d", "README", 1), "/d/README (1)");
    assert_eq!(collision_candidate("/d", "a.tar.gz", 12), "/d/a.tar (12).gz");
    assert_eq!(decimal_text(0), "0");
    assert_eq!(decimal_text(1907), "1907");
}

fn op(name: &str, src: &str, dest: &str) -> SortOperation {
    SortOperation {
        file_name: s(name),
        source_path: s(src),
        destination_folder: s(dest),
        reason: s("Dice Match"),
        is_new_folder: true,
    }
}

/// Runs an execution against an in-memory set of paths.
fn run(plan: Vec<SortOperation>, fs: &mut HashSet<String>, fail_rename_of: Option<&str>) -> (Vec<(String, String)>, Option<String>) {
    let mut ex = SortExecution::new(plan);
    loop {
        let ev = match ex.next_step() {
            MoveStep::CreateFolder { .. } => MoveEvent::Done,
            MoveStep::Probe { path } => MoveEvent::Exists(fs.contains(&path)),
            MoveStep::Rename { from, to } => {
                if Some(from.as_str()) == fail_rename_of || !fs.contains(&from) {
                    MoveEvent::Failed(format!("cannot move {}", from))
                } else {
                    assert!(!fs.contains(&to), "rename would overwrite {}", to);
                    fs.remove(&from);
                    fs.insert(to);
                    MoveEvent::Done
                }
            }
            MoveStep::Finished => break,
        };
        ex.on_event(ev);
    }
    assert!(ex.is_finished());
    (ex.moves(), ex.error())
}

#[test]
fn colliding_moves_keep_both_files() {
    let mut fs: HashSet<String> = ["/R/a/x.txt", "/R/b/x.txt", "/D/x.txt"].iter().map(|p| s(p)).collect();
    let plan = vec![op("x.txt", "/R/a/x.txt", "/D"), op("x.txt", "/R/b/x.txt", "/D")];
    let (moves, err) = run(plan, &mut fs, None);
    assert_eq!(err, None);
    assert_eq!(moves, vec![(s("/R/a/x.txt"), s("/D/x (1).txt")), (s("/R/b/x.txt"), s("/D/x (2).txt"))]);
    assert_eq!(fs.len(), 3);
    assert!(fs.contains("/D/x.txt") && fs.contains("/D/x (1).txt") && fs.contains("/D/x (2).txt"));
}

#[test]
fn execution_stops_at_the_first_failure() {
    let mut fs: HashSet<String> = ["/R/a.txt", "/R/b.txt", "/R/c.txt"].iter().map(|p| s(p)).collect();
    let plan = vec![op("a.txt", "/R/a.txt", "/R/A"), op("b.txt", "/R/b.txt", "/R/B"), op("c.txt", "/R/c.txt", "/R/C")];
    let (moves, err) = run(plan, &mut fs, Some("/R/b.txt"));
    assert_eq!(moves, vec![(s("/R/a.txt"), s("/R/A/a.txt"))]);
    assert_eq!(err, Some(s("cannot move /R/b.txt")));
    assert!(fs.contains("/R/c.txt"));
}

#[test]
fn failed_folder_creation_ends_the_execution() {
    let mut ex = SortExecution::new(vec![op("a.txt", "/R/a.txt", "/R/A")]);
    assert_eq!(ex.next_step(), MoveStep::CreateFolder { folder: s("/R/A") });
    ex.on_event(MoveEvent::Failed(s("denied")));
    assert_eq!(ex.next_step(), MoveStep::Finished);
    assert_eq!(ex.error(), Some(s("denied")));
    assert!(ex.moves().is_empty());
}

#[test]
fn empty_plan_is_finished_at_once() {
    let ex = SortExecution::new(vec![]);
    assert!(ex.is_finished());
    assert_eq!(ex.next_step(), MoveStep::Finished);
}

#[test]
fn execute_then_restore_round_trip() {
    let start: HashSet<String> = ["/R/a.txt", "/R/b.txt", "/R/Docs/a.txt"].iter().map(|p| s(p)).collect();
    let mut fs = start.clone();
    let plan = vec![op("a.txt", "/R/a.txt", "/R/Docs"), op("b.txt", "/R/b.txt", "/R/b")];
    let (moves, err) = run(plan, &mut fs, None);
    assert_eq!(err, None);
    let mut undo = UndoStack::new();
    undo.push(moves);
    let batch = undo.pop().unwrap();
    assert!(undo.is_empty());
    let renames = restore_moves(&batch);
    assert_eq!(renames, vec![(s("/R/b/b.txt"), s("/R/b.txt")), (s("/R/Docs/a (1).txt"), s("/R/a.txt"))]);
    for (from, to) in &renames {
        assert!(fs.remove(from));
        assert!(fs.insert(to.clone()));
    }
    assert_eq!(fs, start);
    let dirs = cleanup_folders(&batch);
    assert_eq!(dirs.len(), 2);
    assert!(dirs.contains(&s("/R/Docs")) && dirs.contains(&s("/R/b")));
}

#[test]
fn cleanup_goes_deepest_first() {
    let batch = vec![
        (s("/R/a"), s("/R/x/a")),
        (s("/R/b"), s("/R/x/y/z/b")),
        (s("/R/c"), s("/R/x/y/c")),
        (s("/R/d"), s("/R/x/d")),
    ];
    assert_eq!(cleanup_folders(&batch), vec![s("/R/x/y/z"), s("/R/x/y"), s("/R/x")]);
}

#[test]
fn undo_stack_is_last_in_first_out() {
    let mut undo = UndoStack::new();
    assert!(undo.pop().is_none());
    undo.push(vec![(s("a"), s("b"))]);
    undo.push(vec![(s("c"), s("d"))]);
    assert_eq!(undo.len(), 2);
    assert_eq!(undo.pop(), Some(vec![(s("c"), s("d"))]));
    assert_eq!(undo.pop(), Some(vec![(s("a"), s("b"))]));
    assert!(undo.is_empty());
}

#[test]
fn preview_needs_a_folder() {
    let mut st = FileSorterState::default();
    assert_eq!(st.similarity_threshold, 80);
    let r = st.get_sort_preview(vec![file("/R/a.txt", 1)], &vec![], &vec![]);
    assert_eq!(r, Err(SorterError::NoFolderSelected));
    assert_eq!(SorterError::NoFolderSelected.message(), "No folder selected");
    assert_eq!(SorterError::Io(s("disk full")).message(), "disk full");
    assert!(st.preview.is_empty());
}

#[test]
fn preview_sort_and_restore_point() {
    let mut st = FileSorterState::default();
    st.current_path = Some(s("/R"));
    st.set_similarity_threshold(60);
    st.exclude_path(s("/R/Receipt.pdf"));
    st.exclude_path(s("/R/Receipt.pdf"));
    assert_eq!(st.excluded_paths.len(), 1);
    let entries = vec![file("/R/Invoice_Jan.pdf", 3), file("/R/Receipt.pdf", 4)];
    st.get_sort_preview(entries, &vec![dir("/R/Invoices")], &vec![s("/R/Invoices")]).unwrap();
    assert_eq!(st.preview.len(), 1);
    assert_eq!(st.stats.total_size_to_move, 3);
    st.include_path("/R/Receipt.pdf");
    assert!(st.excluded_paths.is_empty());
    let ex = st.begin_sort().unwrap();
    assert_eq!(ex.next_step(), MoveStep::CreateFolder { folder: s("/R/Invoices") });
    let mut undo = UndoStack::new();
    st.finish_sort(&mut undo, vec![(s("/R/Invoice_Jan.pdf"), s("/R/Invoices/Invoice_Jan.pdf"))]);
    assert!(st.has_restore_point);
    assert!(st.preview.is_empty());
    assert_eq!(st.stats.files_to_move, 0);
    assert!(st.begin_sort().is_none());
    undo.pop();
    st.finish_restore(&undo);
    assert!(!st.has_restore_point);
}

#[test]
fn forced_targets_toggle() {
    let mut st = FileSorterState::default();
    assert!(!st.clear_forced_target("/R/a.txt"));
    st.set_forced_target(s("/R/a.txt"), s("/X"));
    st.set_forced_target(s("/R/b.txt"), s("/Y"));
    st.set_forced_target(s("/R/a.txt"), s("/Z"));
    assert_eq!(st.forced_targets, vec![(s("/R/b.txt"), s("/Y")), (s("/R/a.txt"), s("/Z"))]);
    assert!(st.clear_forced_target("/R/a.txt"));
    assert_eq!(st.forced_targets, vec![(s("/R/b.txt"), s("/Y"))]);
}
