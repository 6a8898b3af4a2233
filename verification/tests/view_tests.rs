use peruse_tui::view::{hide_column, narrow, next_sort, row_line, show_all_columns, visible_columns, widen};

#[test]
fn three_presses_of_s_sort_up_down_and_off() {
    assert_eq!(next_sort(None, "amount"), Some(false));
    assert_eq!(next_sort(Some(("amount", false)), "amount"), Some(true));
    assert_eq!(next_sort(Some(("amount", true)), "amount"), None);
    // A press on another column sorts that column up.
    assert_eq!(next_sort(Some(("id", true)), "amount"), Some(false));
}

#[test]
fn the_widths_move_by_four_inside_their_limits() {
    assert_eq!(widen(10), 14);
    assert_eq!(widen(238), 240);
    assert_eq!(narrow(14), 10);
    assert_eq!(narrow(5), 3);
    assert_eq!(narrow(0), 3);
    assert_eq!(narrow(widen(20)), 20);
}

#[test]
fn hiding_keeps_one_column_and_moves_the_cursor_onto_a_shown_one() {
    let mut hidden = vec![false, false, true, false];
    assert_eq!(visible_columns(&hidden), vec![0, 1, 3]);
    // The cursor on a column that is hidden goes to the last shown column.
    assert_eq!(hide_column(&mut hidden, 1), Ok(3));
    assert_eq!(hidden, vec![false, true, true, false]);
    assert_eq!(hide_column(&mut hidden, 3), Ok(0));
    assert_eq!(visible_columns(&hidden), vec![0]);
    assert_eq!(hide_column(&mut hidden, 0), Err("cannot hide the last visible column"));
    assert_eq!(hidden, vec![false, true, true, true]);
}

#[test]
fn show_all_counts_the_hidden_columns() {
    let mut hidden = vec![true, false, true];
    assert_eq!(show_all_columns(&mut hidden), "2 column(s) shown");
    assert_eq!(hidden, vec![false, false, false]);
}

#[test]
fn a_row_on_the_clipboard_keeps_null_apart_from_an_empty_value() {
    let cells = vec![Some("1".to_string()), None, Some(String::new()), Some("EU".to_string())];
    assert_eq!(row_line(&cells), "1\tNULL\t\tEU");
    assert_eq!(row_line(&Vec::new()), "");
}
