use powertoys::randomiser::{is_hidden_name, AppStateData};
use powertoys::selection::{choose_index, memory_weight, pick_random_file, FileEntry, PickHistory, WEIGHT_SCALE};

fn entry(id: u64, excluded: bool) -> FileEntry {
    FileEntry { id, name: format!("f{}", id), path: format!("/p/f{}", id), excluded }
}

#[test]
fn empty_candidates_pick_nothing_and_keep_history() {
    let mut h = PickHistory::new();
    h.record(7, 2);
    let before = (h.last_picked_id, h.last_picked_index, h.pick_counts.clone());
    assert!(pick_random_file(&vec![], &mut h, 50, 500_000).is_none());
    assert_eq!((h.last_picked_id, h.last_picked_index, h.pick_counts.clone()), before);
    let all_excluded = vec![entry(1, true), entry(2, true)];
    assert!(pick_random_file(&all_excluded, &mut h, 50, 500_000).is_none());
    assert_eq!((h.last_picked_id, h.last_picked_index, h.pick_counts.clone()), before);
}

#[test]
fn pick_counts_grow_by_one_per_pick() {
    let files = vec![entry(1, true), entry(9, false)];
    let mut h = PickHistory::new();
    for n in 1..=5u32 {
        let f = pick_random_file(&files, &mut h, 30, 123_456).unwrap();
        assert_eq!(f.id, 9);
        assert_eq!(h.count_of(9), n);
        assert_eq!(h.count_of(1), 0);
        assert_eq!(h.last_picked_id, Some(9));
        assert_eq!(h.last_picked_index, Some(0));
    }
}

#[test]
fn counts_saturate_at_the_top() {
    let mut h = PickHistory::new();
    h.pick_counts.insert(3, u32::MAX);
    h.record(3, 0);
    assert_eq!(h.count_of(3), u32::MAX);
}

#[test]
fn picks_come_from_the_available_files() {
    let files = vec![entry(1, false), entry(2, true), entry(3, false), entry(4, false)];
    let mut h = PickHistory::new();
    let mut total = 0u32;
    for _ in 0..200 {
        let f = pick_random_file(&files, &mut h, 70, 900_000).unwrap();
        assert_ne!(f.id, 2);
        total += 1;
    }
    let sum: u32 = [1u64, 3, 4].iter().map(|id| h.count_of(*id)).sum();
    assert_eq!(sum, total);
}

#[test]
fn memory_weights() {
    assert_eq!(memory_weight(0, 0), WEIGHT_SCALE);
    assert_eq!(memory_weight(1, 0), 333_333);
    assert_eq!(memory_weight(5, 100), WEIGHT_SCALE);
    assert_eq!(memory_weight(1, 50), 666_666);
    assert_eq!(memory_weight(u32::MAX, 0), 1);
    assert!(memory_weight(3, 20) <= memory_weight(2, 20));
}

#[test]
fn randomness_zero_follows_the_weighted_choice() {
    for w in 0..3 {
        assert_eq!(choose_index(3, Some(0), 0, 99, 2, 700_000, w), w);
    }
}

#[test]
fn randomness_hundred_follows_the_target() {
    // coin 5 < 100: jump to 1; distance floor(0.5 * 3) = 1; target (1 + 1) % 3 = 2.
    assert_eq!(choose_index(3, Some(0), 100, 5, 1, 500_000, 0), 2);
    // distance below one still steps once: (0 + 1) % 3.
    assert_eq!(choose_index(3, None, 100, 5, 0, 0, 2), 1);
}

#[test]
fn blend_rounds_half_up() {
    // p = 50, no jump (coin 60): direction (0 + 1) % 4 = 1, distance floor(0.25 * 4) = 1,
    // target 2; weighted 1: round(2 * 0.5 + 1 * 0.5) = round(1.5) = 2.
    assert_eq!(choose_index(4, Some(0), 50, 60, 3, 250_000, 1), 2);
    // p = 30, target 2 (last 0, coin 99, distance 1), weighted 0: round(0.6) = 1.
    assert_eq!(choose_index(4, Some(0), 30, 99, 0, 250_000, 0), 1);
}

#[test]
fn hidden_names() {
    assert!(is_hidden_name(".git"));
    assert!(!is_hidden_name("a.git"));
    assert!(!is_hidden_name(""));
}

#[test]
fn saved_paths_are_numbered_and_removed() {
    let mut st = AppStateData::new();
    let a = st.add_path("/home/me/Music".to_string());
    assert_eq!(a.id, 1);
    assert_eq!(a.name, "Music");
    let b = st.add_path("/".to_string());
    assert_eq!(b.id, 2);
    assert_eq!(b.name, "unknown");
    assert!(st.remove_path(1));
    assert!(!st.remove_path(1));
    assert_eq!(st.paths.len(), 1);
    assert_eq!(st.paths[0].id, 2);
}

#[test]
fn open_history_and_lookup() {
    let mut st = AppStateData::new();
    st.set_files_from_crawl(&vec![("/m/a.mp3".to_string(), "a.mp3".to_string()), ("/m/b.mp3".to_string(), "b.mp3".to_string())]);
    assert_eq!(st.files[1].id, 2);
    let f = st.find_file(2).unwrap();
    assert_eq!(f.path, "/m/b.mp3");
    assert!(st.find_file(3).is_none());
    st.record_open(f.id, f.name.clone(), f.path.clone(), 1_700_000_000_000);
    assert_eq!(st.history.len(), 1);
    assert_eq!(st.history[0].opened_at, 1_700_000_000_000);
    let picked = st.pick(50, 500_000).unwrap();
    assert!(picked.id == 1 || picked.id == 2);
}

#[test]
fn full_randomness_spreads_picks_evenly() {
    let files = vec![entry(1, false), entry(2, false), entry(3, false)];
    let mut h = PickHistory::new();
    for _ in 0..3000 {
        pick_random_file(&files, &mut h, 100, 500_000).unwrap();
    }
    for id in 1..=3u64 {
        let c = h.count_of(id);
        assert!((800..=1200).contains(&c), "file {} picked {} times", id, c);
    }
}

#[test]
fn often_picked_files_are_held_back() {
    let files = vec![entry(1, false), entry(2, false), entry(3, false)];
    let mut often = 0;
    for _ in 0..200 {
        let mut h = PickHistory::new();
        h.pick_counts.insert(1, 1000);
        let f = pick_random_file(&files, &mut h, 0, 500_000).unwrap();
        if f.id == 1 {
            often += 1;
        }
    }
    assert!(often < 10, "often-picked file came up {} times", often);
}
