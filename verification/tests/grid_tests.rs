use peruse_tui::app::Band;
use peruse_tui::grid::{
    band_rows, digit_count, gutter_width, layout, range_line, waiting, with_word, CellKind, ColumnBrief,
};

fn brief(total: u64, present: u64, distinct: u64, lo: &str, hi: &str) -> ColumnBrief {
    ColumnBrief {
        column: "c".into(),
        n_total: total,
        n_present: present,
        n_distinct: Some(distinct),
        min: Some(lo.into()),
        max: Some(hi.into()),
    }
}

#[test]
fn the_band_takes_the_rows_of_its_mode_when_the_grid_is_tall() {
    assert_eq!(band_rows(Band::Off, 20), 0);
    assert_eq!(band_rows(Band::Compact, 20), 1);
    assert_eq!(band_rows(Band::Detailed, 20), Band::DETAIL_ROWS);
}

#[test]
fn a_short_grid_gives_the_rows_of_the_band_back_to_the_data() {
    for (height, want) in [(0u16, 0u16), (1, 0), (2, 0), (3, 1), (5, 2), (8, 3), (10, 4)] {
        let rows = band_rows(Band::Detailed, height);
        assert_eq!(rows, want, "a grid of {height} rows");
        if height >= 2 {
            assert!(height - 1 - rows >= 1, "a grid of {height} rows kept no row of data");
        }
    }
    assert_eq!(band_rows(Band::Compact, 2), 0);
    assert_eq!(band_rows(Band::Compact, 3), 1);
}

#[test]
fn the_range_says_what_it_can_for_each_family_of_values() {
    let all_null = ColumnBrief {
        column: "c".into(),
        n_total: 10,
        n_present: 0,
        n_distinct: Some(0),
        min: None,
        max: None,
    };
    assert_eq!(range_line(CellKind::Text, &all_null, 12), "all null");
    for kind in [CellKind::Nested, CellKind::Binary] {
        assert_eq!(range_line(kind, &brief(10, 10, 10, "x", "y"), 12), "no order", "{kind:?}");
    }
    assert_eq!(range_line(CellKind::Text, &brief(10, 10, 1, "EU", "EU"), 12), "EU");
}

#[test]
fn the_range_gives_the_room_to_the_end_that_needs_it() {
    assert_eq!(range_line(CellKind::Number, &brief(5, 4, 4, "7.0", "4000.75"), 11), "7.0 → 4000…");
    assert_eq!(range_line(CellKind::Text, &brief(5, 5, 3, "APAC", "US"), 6), "… → US");
}

#[test]
fn a_narrow_range_keeps_both_ends() {
    assert_eq!(range_line(CellKind::Number, &brief(1000, 900, 42, "1", "999"), 6), "1 → 9…");
    assert_eq!(range_line(CellKind::Number, &brief(10, 10, 2, "1", "2"), 4), "1→2");
    assert_eq!(range_line(CellKind::Text, &brief(10, 10, 2, "alice", "zoe"), 16), "alice → zoe");
}

#[test]
fn a_value_of_more_than_one_line_stays_on_one_row() {
    let line = range_line(CellKind::Text, &brief(10, 10, 2, "a\nb", "z"), 20);
    assert!(!line.contains('\n'), "got {line:?}");
}

#[test]
fn a_column_with_no_facts_shows_points() {
    let footer = ColumnBrief {
        column: "id".into(),
        n_total: 1000,
        n_present: 750,
        n_distinct: None,
        min: None,
        max: None,
    };
    assert_eq!(range_line(CellKind::Number, &footer, 8), "·       ");
    assert_eq!(waiting(8), "·       ");
}

#[test]
fn a_narrow_column_keeps_the_number_and_drops_the_word() {
    assert_eq!(with_word("10%", "null", 16), "10% null");
    assert_eq!(with_word("10%", "null", 6), "10%");
    assert_eq!(with_word("~42", "distinct", 12), "~42 distinct");
}

#[test]
fn the_gutter_covers_the_largest_row_number() {
    assert_eq!(gutter_width(Some(10), 0, 20, 0), 4);
    assert_eq!(gutter_width(Some(123_456), 0, 20, 0), 7);
    assert_eq!(gutter_width(None, 9_990, 20, 9_995), 6);
    assert_eq!(gutter_width(None, u64::MAX - 1, 20, u64::MAX), 21);
    assert_eq!(digit_count(0), 1);
    assert_eq!(digit_count(u64::MAX), 20);
}

#[test]
fn the_grid_scrolls_until_the_cursor_column_is_on_the_screen() {
    let vis: Vec<usize> = (0..10).collect();
    let widths = vec![10u16; 10];
    let mut left = 0usize;
    // A gutter of 4 and a width of 40 leave 36 columns: three columns of 10
    // and their gaps.
    let lay = layout(&mut left, &vis, &widths, 0, 4, 40);
    assert_eq!(lay.drawn, vec![(0, 4, 10), (1, 15, 10), (2, 26, 10)]);
    assert_eq!(left, 0);
    let lay = layout(&mut left, &vis, &widths, 5, 4, 40);
    assert_eq!(left, 3);
    assert_eq!(lay.drawn[0].0, 3);
    assert!(lay.drawn.iter().any(|d| d.0 == 5));
    // A cursor on the left of the first column brings the grid back.
    let lay = layout(&mut left, &vis, &widths, 1, 4, 40);
    assert_eq!(left, 1);
    assert_eq!(lay.drawn[0], (1, 4, 10));
    assert_eq!(lay.gutter, 4);
}

#[test]
fn a_grid_with_no_room_draws_no_column() {
    let vis: Vec<usize> = vec![0, 1];
    let widths = vec![5u16, 5];
    let mut left = 1usize;
    let lay = layout(&mut left, &vis, &widths, 0, 8, 8);
    assert!(lay.drawn.is_empty());
    assert_eq!(left, 1);
    let lay = layout(&mut left, &[], &widths, 0, 2, 80);
    assert!(lay.drawn.is_empty());
}

#[test]
fn a_wide_column_leaves_room_for_the_next_one() {
    let vis: Vec<usize> = vec![0, 1];
    let widths = vec![500u16, 5];
    let mut left = 0usize;
    let lay = layout(&mut left, &vis, &widths, 0, 4, 40);
    assert_eq!(lay.drawn, vec![(0, 4, 35)]);
}
