use peruse_tui::app::Hit;
use peruse_tui::keys::{KeyModifiers, MouseButton, MouseEvent, MouseEventKind};
use peruse_tui::cursor::{grid_click, GridClick, follow, known_hit, last_row, match_note, move_col, move_row, page_request, page_row};

#[test]
fn the_window_follows_the_cursor_as_little_as_it_must() {
    // The cursor inside the window moves nothing.
    assert_eq!(follow(12, 10, 5), 10);
    // Below the window, the cursor lands on its last row.
    assert_eq!(follow(20, 10, 5), 16);
    // Above it, the cursor lands on its first row.
    assert_eq!(follow(3, 10, 5), 3);
    // A window of no rows still counts one.
    assert_eq!(follow(11, 10, 0), 11);
}

#[test]
fn a_move_of_rows_stops_at_both_ends() {
    assert_eq!(move_row(5, 3, 100), 8);
    assert_eq!(move_row(5, -10, 100), 0);
    assert_eq!(move_row(98, 10, 100), 100);
    assert_eq!(move_row(u64::MAX - 1, i64::MAX, u64::MAX), u64::MAX);
    assert_eq!(move_row(7, i64::MIN, 100), 0);
}

#[test]
fn a_move_of_columns_skips_the_hidden_columns() {
    let vis = vec![0usize, 2, 5, 7];
    assert_eq!(move_col(&vis, 2, 1), Some(5));
    assert_eq!(move_col(&vis, 2, -5), Some(0));
    assert_eq!(move_col(&vis, 7, 3), Some(7));
    // A cursor on a hidden column moves from the first drawn one.
    assert_eq!(move_col(&vis, 3, 1), Some(2));
    assert_eq!(move_col(&Vec::new(), 0, 1), None);
}

#[test]
fn the_last_row_comes_from_the_count_or_from_the_last_page() {
    assert_eq!(last_row(Some(1000), false, 0, 0), 999);
    assert_eq!(last_row(Some(0), true, 0, 0), 0);
    assert_eq!(last_row(None, true, 200, 37), 236);
    assert_eq!(last_row(None, false, 200, 100), u64::MAX);
    assert_eq!(page_row(250, 200, 100), Some(50));
    assert_eq!(page_row(300, 200, 100), None);
    assert_eq!(page_row(150, 200, 100), None);
}

#[test]
fn the_nearest_known_match_in_each_direction() {
    let hits = vec![3u64, 8, 8, 20];
    assert_eq!(known_hit(&hits, 8, true, false), Some(20));
    assert_eq!(known_hit(&hits, 8, true, true), Some(8));
    assert_eq!(known_hit(&hits, 8, false, false), Some(3));
    assert_eq!(known_hit(&hits, 8, false, true), Some(8));
    assert_eq!(known_hit(&hits, 20, true, false), None);
    assert_eq!(known_hit(&hits, 3, false, false), None);
    assert_eq!(match_note(&hits, 20, true, ""), "match 4/4");
    assert_eq!(match_note(&hits, 8, false, " (wrapped)"), "match 2/4+ (wrapped)");
    assert_eq!(match_note(&hits, 99, true, ""), "match 1/4");
}

#[test]
fn the_viewer_asks_for_a_page_only_when_the_window_needs_one() {
    // The page from row 0 with 550 rows covers a window of 50 rows at row 100.
    assert_eq!(page_request(100, 50, 0, 550, 4, false, None), None);
    // A window past the page needs a new page, from 250 rows before it.
    assert_eq!(page_request(600, 50, 0, 550, 4, false, None), Some((350, 550)));
    // The same request on its way already is not sent again.
    assert_eq!(page_request(600, 50, 0, 550, 4, false, Some((350, 550))), None);
    // The last page of the view covers each window after its start.
    assert_eq!(page_request(600, 50, 0, 550, 4, true, None), None);
    // A page with no column covers nothing.
    assert_eq!(page_request(10, 50, 0, 550, 0, true, None), Some((0, 550)));
}

fn grid() -> Hit {
    // The names on row 1, a band of two rows, and ten rows of data from row 4,
    // over the columns 0 to 59 of the terminal; the gutter takes 0 to 4.
    Hit {
        header_y: 1,
        band: 2,
        top: 4,
        rows: 10,
        left: 0,
        width: 60,
        cols: vec![(0, 5, 10), (1, 16, 20), (2, 37, 12)],
    }
}

fn press(x: u16, y: u16) -> MouseEvent {
    MouseEvent { kind: MouseEventKind::Down(MouseButton::Left), column: x, row: y, modifiers: KeyModifiers::none() }
}

#[test]
fn a_press_on_a_cell_moves_the_cursor_there() {
    let r = grid_click(&grid(), &press(20, 6), false, 100, 100, 0, 1_000);
    assert_eq!(r, GridClick { acted: true, col: 1, row: 102, open: false });
}

#[test]
fn a_press_on_the_cell_of_the_cursor_opens_the_record() {
    let r = grid_click(&grid(), &press(20, 6), false, 100, 102, 1, 1_000);
    assert_eq!(r, GridClick { acted: true, col: 1, row: 102, open: true });
    // A press in the gutter of that row counts as the cell of the cursor.
    let g = grid_click(&grid(), &press(2, 6), false, 100, 102, 1, 1_000);
    assert_eq!(g, GridClick { acted: true, col: 1, row: 102, open: true });
    // A double click opens the record of any row.
    let d = grid_click(&grid(), &press(40, 4), true, 100, 0, 0, 1_000);
    assert_eq!(d, GridClick { acted: true, col: 2, row: 100, open: true });
}

#[test]
fn a_press_on_the_names_moves_the_column_and_not_the_row() {
    let r = grid_click(&grid(), &press(40, 1), false, 0, 7, 0, 1_000);
    assert_eq!(r, GridClick { acted: true, col: 2, row: 7, open: false });
    let band = grid_click(&grid(), &press(6, 3), false, 0, 7, 2, 1_000);
    assert_eq!(band, GridClick { acted: true, col: 0, row: 7, open: false });
    // The names over the gutter hold no column.
    let none = grid_click(&grid(), &press(1, 1), false, 0, 7, 2, 1_000);
    assert_eq!(none, GridClick { acted: false, col: 2, row: 7, open: false });
}

#[test]
fn a_press_beside_the_grid_or_under_the_last_row_changes_nothing() {
    let nothing = GridClick { acted: false, col: 1, row: 3, open: false };
    // A panel beside the grid.
    assert_eq!(grid_click(&grid(), &press(70, 6), false, 0, 3, 1, 1_000), nothing);
    // The row between the band and the data.
    assert_eq!(grid_click(&grid(), &press(20, 0), false, 0, 3, 1, 1_000), nothing);
    // An empty row under the last row of a short view.
    assert_eq!(grid_click(&grid(), &press(20, 12), false, 0, 3, 1, 5), nothing);
    // Another button, or the wheel.
    let right = MouseEvent { kind: MouseEventKind::Down(MouseButton::Right), ..press(20, 6) };
    assert_eq!(grid_click(&grid(), &right, false, 0, 3, 1, 1_000), nothing);
    let wheel = MouseEvent { kind: MouseEventKind::ScrollDown, ..press(20, 6) };
    assert_eq!(grid_click(&grid(), &wheel, false, 0, 3, 1, 1_000), nothing);
}
