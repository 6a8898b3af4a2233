use peruse_tui::search::{
    add_hits, after_part, progress_text, search_key, Scan, SearchKey, SearchStep, SEARCH_CHUNK,
    SEARCH_CHUNK_MAX,
};

#[test]
fn a_scan_starts_with_the_small_chunk() {
    let s = Scan::start(42, true, true, 1_000);
    assert_eq!(s.next, 42);
    assert_eq!(s.examined, 0);
    assert_eq!(s.total, 1_000);
    assert_eq!(s.chunk, SEARCH_CHUNK);
    assert!(s.forward);
    assert!(s.inclusive);
}

#[test]
fn the_parts_grow_up_to_the_largest_chunk() {
    let mut s = Scan::start(0, true, false, 100_000_000);
    let mut sizes = Vec::new();
    for _ in 0..7 {
        let (_, len) = s.next_part();
        sizes.push(len);
    }
    assert_eq!(
        sizes,
        vec![250_000, 500_000, 1_000_000, 2_000_000, 4_000_000, 4_000_000, 4_000_000]
    );
    assert_eq!(s.chunk, SEARCH_CHUNK_MAX);
    assert_eq!(s.examined, 15_750_000);
}

#[test]
fn a_forward_part_starts_where_the_last_one_ended() {
    let mut s = Scan::start(100, true, false, 600_000);
    assert_eq!(s.next_part(), (100, 250_000));
    assert_eq!(s.next, 250_100);
    // The second part holds only the rest of the view.
    assert_eq!(s.next_part(), (250_100, 349_900));
    assert_eq!(s.next, 600_000);
    // Past the end of the view, the scan starts again at the first row.
    assert_eq!(s.next_part(), (0, 600_000));
    assert_eq!(s.examined, 1_199_900);
}

#[test]
fn a_forward_part_of_an_empty_view_holds_one_row() {
    let mut s = Scan::start(0, true, true, 0);
    assert_eq!(s.next_part(), (0, 1));
    assert_eq!(s.next, 1);
    assert_eq!(s.examined, 1);
}

#[test]
fn a_backward_part_ends_where_the_last_one_started() {
    let mut s = Scan::start(300_000, false, false, 1_000_000);
    assert_eq!(s.next_part(), (50_000, 250_000));
    assert_eq!(s.next, 50_000);
    // The rows before the end are fewer than the chunk.
    assert_eq!(s.next_part(), (0, 50_000));
    assert_eq!(s.next, 0);
    // Past the first row, the scan goes on from the end of the view.
    assert_eq!(s.next_part(), (0, 1_000_000));
    assert_eq!(s.examined, 1_300_000);
}

#[test]
fn the_progress_names_the_share_that_was_examined() {
    let mut s = Scan::start(0, true, true, 1_000_000);
    assert_eq!(progress_text(&s), "searching… 0%  (Esc cancels)");
    s.next_part();
    assert_eq!(progress_text(&s), "searching… 25%  (Esc cancels)");
    s.next_part();
    assert_eq!(progress_text(&s), "searching… 75%  (Esc cancels)");
    s.next_part();
    // A scan that reached the end counts the whole view.
    assert_eq!(progress_text(&s), "searching… 100%  (Esc cancels)");
}

#[test]
fn the_progress_of_an_empty_view() {
    let mut s = Scan::start(0, true, true, 0);
    s.next_part();
    assert_eq!(progress_text(&s), "searching… 0%  (Esc cancels)");
}

#[test]
fn new_matches_join_the_known_ones_in_order() {
    let mut hits = vec![3, 10, 20];
    add_hits(&mut hits, &vec![15, 1, 10, 25, 15]);
    assert_eq!(hits, vec![1, 3, 10, 15, 20, 25]);
}

#[test]
fn no_new_matches_change_nothing() {
    let mut hits = vec![4, 8];
    add_hits(&mut hits, &Vec::new());
    assert_eq!(hits, vec![4, 8]);
    let mut none: Vec<u64> = Vec::new();
    add_hits(&mut none, &vec![7]);
    assert_eq!(none, vec![7]);
}

#[test]
fn a_part_with_matches_moves_the_cursor_to_the_next_one() {
    let s = Scan::start(11, true, true, 100);
    assert_eq!(after_part(&vec![5, 12, 40], true, false, &s, 10), SearchStep::GoTo(12, false));
    // A typed search counts the row of the cursor.
    assert_eq!(after_part(&vec![5, 10, 40], true, false, &s, 10), SearchStep::GoTo(10, false));
    let n = Scan::start(11, true, false, 100);
    assert_eq!(after_part(&vec![5, 10, 40], true, false, &n, 10), SearchStep::GoTo(40, false));
}

#[test]
fn a_part_with_matches_only_behind_the_cursor_wraps() {
    let s = Scan::start(51, true, false, 100);
    assert_eq!(after_part(&vec![5, 12, 40], true, false, &s, 50), SearchStep::GoTo(5, true));
    let b = Scan::start(3, false, false, 100);
    assert_eq!(after_part(&vec![5, 12, 40], true, false, &b, 3), SearchStep::GoTo(40, true));
    assert_eq!(after_part(&vec![5, 12, 40], true, false, &b, 20), SearchStep::GoTo(12, false));
}

#[test]
fn a_scan_that_saw_everything_reports_what_it_found() {
    let s = Scan::start(0, true, true, 100);
    assert_eq!(after_part(&Vec::new(), false, true, &s, 0), SearchStep::NoMatch);
    assert_eq!(after_part(&vec![7], false, true, &s, 9), SearchStep::NoFurther);
    assert_eq!(after_part(&vec![7], false, false, &s, 9), SearchStep::More);
}

#[test]
fn the_search_keys_need_a_typed_search() {
    assert_eq!(search_key(true, &vec![1, 2], true, 0, true), SearchKey::NoNeedle);
}

#[test]
fn the_search_keys_always_move_the_cursor() {
    let hits = vec![5, 10, 40];
    assert_eq!(search_key(false, &hits, false, 10, true), SearchKey::GoTo(40, false));
    assert_eq!(search_key(false, &hits, false, 10, false), SearchKey::GoTo(5, false));
}

#[test]
fn the_search_keys_wrap_when_each_match_is_known() {
    let hits = vec![5, 10, 40];
    assert_eq!(search_key(false, &hits, true, 40, true), SearchKey::GoTo(5, true));
    assert_eq!(search_key(false, &hits, true, 5, false), SearchKey::GoTo(40, true));
    assert_eq!(search_key(false, &Vec::new(), true, 5, false), SearchKey::NoMatch);
}

#[test]
fn the_search_keys_scan_for_what_is_not_known() {
    let hits = vec![5];
    assert_eq!(search_key(false, &hits, false, 9, true), SearchKey::Scan(10));
    assert_eq!(search_key(false, &Vec::new(), false, 9, false), SearchKey::Scan(9));
    assert_eq!(search_key(false, &Vec::new(), false, u64::MAX, true), SearchKey::Scan(u64::MAX));
}
