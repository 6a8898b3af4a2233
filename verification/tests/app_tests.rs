use peruse_tui::app::{indexes_at_open, AUTO_INDEX_BYTES, AUTO_INDEX_COLUMNS};
use peruse_tui::app::{
    common_prefix, fitted_width, ghost_from, step_of, wheel_of, Band, Clicks, Hit, Mode, OverlayHit,
    Panel, Rect, Wheel, DEFAULT_STEP, MAX_COL_WIDTH, MAX_STEP, MIN_COL_WIDTH, NAME_HEADROOM,
    WHEEL_COLS, WHEEL_ROWS,
};
use peruse_tui::app::{
    brief_is_enough, close_overlay, complete_name, footer_can_answer, overlay_key, split_path_word, Completion,
    OverlayStep, Setting,
};
use peruse_tui::app::{overlay_press, OverlayPress};
use peruse_tui::grid::ColumnBrief;
use peruse_tui::keys::{KeyCode, KeyEvent, KeyModifiers, MouseButton, MouseEvent, MouseEventKind};
use std::time::{Duration, Instant};

fn hit() -> Hit {
    Hit {
        header_y: 1,
        band: 0,
        top: 2,
        rows: 10,
        cols: vec![(0, 4, 6), (1, 10, 6), (2, 16, 6)],
        left: 0,
        width: 22,
    }
}

fn hit_with_band() -> Hit {
    Hit {
        header_y: 1,
        band: Band::DETAIL_ROWS,
        top: 2 + Band::DETAIL_ROWS,
        rows: 6,
        ..hit()
    }
}

#[test]
fn a_click_finds_the_row_and_the_column_under_the_pointer() {
    let h = hit();
    assert_eq!(h.row_at(2), Some(0), "the first row of data");
    assert_eq!(h.row_at(11), Some(9), "the last row of data");
    assert_eq!(h.col_at(4), Some(0), "the left edge of the first column");
    assert_eq!(h.col_at(9), Some(0), "the right edge of the first column");
    assert_eq!(h.col_at(10), Some(1), "the next column starts here");
    assert_eq!(h.col_at(21), Some(2));
}

#[test]
fn a_click_outside_the_grid_finds_nothing() {
    let h = hit();
    assert_eq!(h.row_at(0), None, "the title bar");
    assert_eq!(h.row_at(1), None, "the row of the column names");
    assert_eq!(h.row_at(12), None, "the status line");
    assert_eq!(h.col_at(0), None, "the gutter of row numbers");
    assert_eq!(h.col_at(3), None, "the last column of the gutter");
    assert_eq!(h.col_at(22), None, "the space after the last column");
}

#[test]
fn a_click_in_a_panel_at_the_side_finds_no_row_of_the_grid() {
    let h = hit();
    assert!(h.holds(0), "the gutter of row numbers is in the grid");
    assert!(h.holds(21), "the last column of the grid");
    assert!(!h.holds(22), "the first column of a panel");
    assert!(!h.holds(60), "deep inside a panel");
}

#[test]
fn a_grid_with_no_room_holds_no_column() {
    let h = Hit { width: 0, ..hit() };
    for x in 0..40 {
        assert!(!h.holds(x), "column {x}");
    }
}

#[test]
fn a_grid_with_no_room_finds_nothing() {
    let h = Hit { rows: 0, ..hit() };
    for y in 0..20 {
        assert_eq!(h.row_at(y), None, "row {y}");
    }
}

#[test]
fn the_last_column_of_the_screen_does_not_overflow_the_calculation() {
    let h = Hit {
        header_y: 0,
        band: 0,
        top: 1,
        rows: 4,
        left: u16::MAX - 4,
        width: 4,
        cols: vec![(0, u16::MAX - 2, 40)],
    };
    assert_eq!(h.col_at(u16::MAX - 1), Some(0));
    assert_eq!(h.col_at(0), None);
    assert!(h.holds(u16::MAX - 1));
    assert!(!h.holds(0));
}

#[test]
fn a_click_under_the_band_finds_the_row_that_the_user_pointed_at() {
    let h = hit_with_band();
    assert_eq!(h.row_at(6), Some(0), "the first row of data");
    assert_eq!(h.row_at(11), Some(5), "the last row of data");
    assert_eq!(h.row_at(12), None, "below the last row of data");
    for y in 1..=5 {
        assert_eq!(h.row_at(y), None, "row {y} is the header or the band");
        assert!(h.on_labels(y), "row {y} must count as a label row");
    }
    assert!(!h.on_labels(0), "the title bar");
    assert!(!h.on_labels(6), "the first row of data");
}

#[test]
fn with_no_band_only_the_row_of_the_names_is_a_label_row() {
    let h = hit();
    assert!(h.on_labels(1));
    assert!(!h.on_labels(2), "the first row of data");
    assert!(!h.on_labels(0));
}

#[test]
fn the_band_moves_through_off_compact_and_detailed() {
    assert_eq!(Band::Off.next(), Band::Compact);
    assert_eq!(Band::Compact.next(), Band::Detailed);
    assert_eq!(Band::Detailed.next(), Band::Off);
    assert_eq!(Band::Off.next().next().next(), Band::Off);
    assert_eq!(Band::Off.rows(), 0);
    assert_eq!(Band::Compact.rows(), 1);
    assert_eq!(Band::Detailed.rows(), Band::DETAIL_ROWS);
    assert!(!Band::Compact.needs_values());
    assert!(Band::Detailed.needs_values());
}

#[test]
fn the_name_of_the_band_reads_back_from_the_settings_file() {
    for b in [Band::Off, Band::Compact, Band::Detailed] {
        assert_eq!(Band::parse(b.name()), Some(b), "{}", b.name());
    }
    assert_eq!(Band::parse(" Detailed "), Some(Band::Detailed));
    assert_eq!(Band::parse(""), Some(Band::Off));
    assert_eq!(Band::parse("wide"), None);
}

#[test]
fn the_step_stays_inside_its_limits() {
    assert_eq!(step_of(None), DEFAULT_STEP as i64);
    assert_eq!(step_of(Some(1)), 1);
    assert_eq!(step_of(Some(25)), 25);
    assert_eq!(step_of(Some(0)), 1);
    assert_eq!(step_of(Some(usize::MAX)), MAX_STEP as i64);
}

#[test]
fn a_fitted_column_always_keeps_the_room_after_its_name() {
    for name in [0usize, 1, 2, 6, 13, 40] {
        for widest in [0usize, 1, 4, 9, 30, 55] {
            let w = fitted_width(name, widest) as usize;
            assert!(
                w >= name + NAME_HEADROOM,
                "a name of {name} with a value of {widest} got the width {w}"
            );
            assert!(
                w >= widest.min(MAX_COL_WIDTH as usize),
                "a value of {widest} does not fit in the width {w}"
            );
            assert!(w >= MIN_COL_WIDTH as usize && w <= MAX_COL_WIDTH as usize);
        }
    }
}

#[test]
fn a_very_long_name_stops_at_the_largest_width() {
    assert_eq!(fitted_width(MAX_COL_WIDTH as usize, 0), MAX_COL_WIDTH);
    assert_eq!(fitted_width(200, 4), MAX_COL_WIDTH);
    assert_eq!(fitted_width(100_000, 0), MAX_COL_WIDTH);
}

fn wheel(kind: MouseEventKind, mods: KeyModifiers) -> MouseEvent {
    MouseEvent {
        kind,
        column: 0,
        row: 0,
        modifiers: mods,
    }
}

#[test]
fn the_plain_wheel_always_moves_up_and_down() {
    assert_eq!(
        wheel_of(&wheel(MouseEventKind::ScrollUp, KeyModifiers::none())),
        Wheel::Rows(-WHEEL_ROWS)
    );
    let Wheel::Rows(down) = wheel_of(&wheel(MouseEventKind::ScrollDown, KeyModifiers::none())) else {
        panic!("the wheel down must move rows");
    };
    assert!(down > 0, "the wheel down must move down the view, got {down}");
}

#[test]
fn the_wheel_with_the_control_key_moves_to_the_side() {
    for mods in [KeyModifiers::control(), KeyModifiers::shift()] {
        assert_eq!(
            wheel_of(&wheel(MouseEventKind::ScrollDown, mods)),
            Wheel::Cols(WHEEL_COLS),
            "{mods:?} with the wheel down"
        );
        assert_eq!(
            wheel_of(&wheel(MouseEventKind::ScrollUp, mods)),
            Wheel::Cols(-WHEEL_COLS),
            "{mods:?} with the wheel up"
        );
    }
    let both = KeyModifiers::control().union(KeyModifiers::shift());
    assert_eq!(
        wheel_of(&wheel(MouseEventKind::ScrollDown, both)),
        Wheel::Cols(WHEEL_COLS)
    );
}

#[test]
fn a_wheel_that_turns_to_the_side_moves_to_the_side() {
    assert_eq!(
        wheel_of(&wheel(MouseEventKind::ScrollRight, KeyModifiers::none())),
        Wheel::Cols(WHEEL_COLS)
    );
    assert_eq!(
        wheel_of(&wheel(MouseEventKind::ScrollLeft, KeyModifiers::none())),
        Wheel::Cols(-WHEEL_COLS)
    );
}

#[test]
fn a_movement_of_the_pointer_moves_nothing() {
    for kind in [
        MouseEventKind::Moved,
        MouseEventKind::Drag(MouseButton::Left),
        MouseEventKind::Up(MouseButton::Left),
        MouseEventKind::Down(MouseButton::Right),
    ] {
        assert_eq!(wheel_of(&wheel(kind, KeyModifiers::none())), Wheel::Still, "{kind:?}");
    }
}

#[test]
fn two_quick_presses_at_one_place_are_a_double_click() {
    let t0 = Instant::now();
    let mut c = Clicks::default();
    assert!(!c.press(10, 5, t0), "one press alone is not a double click");
    assert!(c.press(10, 5, t0 + Duration::from_millis(120)));
}

#[test]
fn a_third_press_is_not_a_second_double_click() {
    let t0 = Instant::now();
    let mut c = Clicks::default();
    assert!(!c.press(4, 4, t0));
    assert!(c.press(4, 4, t0 + Duration::from_millis(100)));
    assert!(
        !c.press(4, 4, t0 + Duration::from_millis(200)),
        "the third press must start a new pair"
    );
    assert!(c.press(4, 4, t0 + Duration::from_millis(300)));
}

#[test]
fn two_presses_far_apart_in_time_are_two_clicks() {
    let limit = Duration::from_millis(400);
    let t0 = Instant::now();
    let mut c = Clicks::default();
    assert!(!c.press(2, 2, t0));
    assert!(!c.press(2, 2, t0 + limit + Duration::from_millis(1)));
    let mut c = Clicks::default();
    assert!(!c.press(2, 2, t0));
    assert!(c.press(2, 2, t0 + limit));
}

#[test]
fn two_presses_at_different_positions_are_two_clicks() {
    let t0 = Instant::now();
    for (x, y) in [(11u16, 5u16), (10, 6), (0, 0)] {
        let mut c = Clicks::default();
        assert!(!c.press(10, 5, t0));
        assert!(
            !c.press(x, y, t0 + Duration::from_millis(50)),
            "a press at {x},{y} after one at 10,5"
        );
    }
}

#[test]
fn a_press_now_records_the_place() {
    let mut c = Clicks::default();
    assert!(!c.press_now(3, 3));
    // The two presses of a test come well inside the limit of a double click.
    assert!(c.press_now(3, 3));
    assert!(!c.press_now(3, 3));
}

fn overlay() -> OverlayHit {
    let mut h = OverlayHit::new(
        Mode::Record,
        Rect {
            x: 10,
            y: 2,
            width: 40,
            height: 12,
        },
    );
    for i in 0..6u16 {
        h.line(3 + i, 20 + i as usize);
    }
    h
}

#[test]
fn a_click_inside_an_overlay_is_not_a_click_outside_it() {
    let h = overlay();
    assert!(h.holds(10, 2), "the top left corner of the border");
    assert!(h.holds(49, 13), "the bottom right corner of the border");
    assert!(h.holds(30, 8), "the middle of the box");
    assert!(!h.holds(9, 8), "one column to the left of the box");
    assert!(!h.holds(50, 8), "one column to the right of the box");
    assert!(!h.holds(30, 1), "one row above the box");
    assert!(!h.holds(30, 14), "one row below the box");
    assert!(!h.holds(0, 0), "the title bar of the screen");
}

#[test]
fn a_click_in_a_list_finds_the_line_under_the_pointer() {
    let h = overlay();
    assert_eq!(h.line_at(3), Some(20), "the first line on the screen");
    assert_eq!(h.line_at(5), Some(22));
    assert_eq!(h.line_at(8), Some(25), "the last line on the screen");
    assert_eq!(h.line_at(2), None, "the top border");
    assert_eq!(h.line_at(9), None, "under the last line");
    assert_eq!(h.line_at(13), None, "the row of keys");
}

#[test]
fn an_overlay_with_no_list_answers_no_line() {
    let h = OverlayHit::new(Mode::Help, Rect::new(0, 0, 20, 10));
    for y in 0..12 {
        assert_eq!(h.line_at(y), None, "row {y}");
    }
    assert!(h.holds(0, 0));
}

#[test]
fn the_panels_move_through_the_four_and_read_back() {
    let mut p = Panel::Nothing;
    for _ in 0..4 {
        assert_eq!(Panel::parse(p.name()), Some(p), "{}", p.name());
        p = p.next();
    }
    assert_eq!(p, Panel::Nothing);
    assert_eq!(Panel::parse(" Statistics "), Some(Panel::Stats));
    assert_eq!(Panel::parse("METADATA"), Some(Panel::Meta));
    assert_eq!(Panel::parse(""), Some(Panel::Nothing));
    assert_eq!(Panel::parse("left"), None);
    assert!(Panel::Both.has_meta() && Panel::Both.has_stats());
    assert!(!Panel::Meta.has_stats() && !Panel::Stats.has_meta());
}

#[test]
fn the_completion_offers_the_shortest_name() {
    let names: Vec<String> = ["amount_tax", "amount", "Amber", "id"].iter().map(|s| s.to_string()).collect();
    assert_eq!(ghost_from("am", &names), Some("ber".to_string()));
    assert_eq!(ghost_from("amo", &names), Some("unt".to_string()));
    assert_eq!(ghost_from("AMOUNT", &names), None, "nothing is left to type");
    assert_eq!(ghost_from("", &names), None);
    assert_eq!(ghost_from("zz", &names), None);
}

#[test]
fn the_common_start_keeps_the_case_of_the_first_name() {
    assert_eq!(common_prefix(&["Amount", "amount_tax", "AMOUNTS"]), "Amount");
    assert_eq!(common_prefix(&["payload.ref", "payload.size"]), "payload.");
    assert_eq!(common_prefix(&["solo"]), "solo");
    assert_eq!(common_prefix(&[]), "");
    assert_eq!(common_prefix(&["abc", "xyz"]), "");
}

#[test]
fn the_sampler_and_the_index_wait_for_the_next_file() {
    assert!(Setting::SampleSize.at_next_file());
    assert!(Setting::NoIndex.at_next_file());
    assert!(!Setting::Threads.at_next_file());
    assert!(!Setting::Theme.at_next_file());
}

#[test]
fn a_plain_parquet_file_needs_no_query_for_the_compact_band() {
    // The footer of a Parquet file holds the number of rows and the number of
    // NULL values of each column. The compact band needs nothing more.
    let plain = true;
    let parquet = true;
    assert!(footer_can_answer(Band::Compact, plain, parquet));

    // The detailed band needs the values, and the footer holds none.
    assert!(!footer_can_answer(Band::Detailed, plain, parquet));
    // No other format has a footer: CSV, JSON and Arrow are not Parquet.
    assert!(!footer_can_answer(Band::Compact, plain, false));
    // The footer describes the whole file. A filter and a statement of the
    // user both change the counts, so the engine must measure them.
    let filtered = false;
    assert!(!footer_can_answer(Band::Compact, filtered, parquet));
    let sql = false;
    assert!(!footer_can_answer(Band::Compact, sql, parquet));
}

#[test]
fn the_answer_of_the_footer_is_not_enough_for_the_detailed_band() {
    let from_footer = ColumnBrief {
        column: "id".into(),
        n_total: 100,
        n_present: 90,
        n_distinct: None,
        min: None,
        max: None,
    };
    let measured = ColumnBrief {
        n_distinct: Some(90),
        ..from_footer.clone()
    };
    assert!(brief_is_enough(Some(&from_footer), Band::Compact));
    assert!(!brief_is_enough(Some(&from_footer), Band::Detailed));
    // A measured column answers each mode, so a move back to the compact band
    // asks for nothing.
    assert!(brief_is_enough(Some(&measured), Band::Compact));
    assert!(brief_is_enough(Some(&measured), Band::Detailed));
    // A column with no facts at all always needs an answer.
    assert!(!brief_is_enough(None, Band::Compact));
    assert!(!brief_is_enough(None, Band::Detailed));
    assert!(brief_is_enough(Some(&from_footer), Band::Off));
}

#[test]
fn the_cell_inspector_from_the_record_view_gives_the_record_back() {
    let k = |c: KeyCode| KeyEvent::new(c, KeyModifiers::none());
    assert_eq!(overlay_key(Mode::Cell, true, &k(KeyCode::Esc)), OverlayStep::Leave(Mode::Record));
    assert_eq!(overlay_key(Mode::Cell, false, &k(KeyCode::Char('q'))), OverlayStep::Leave(Mode::Normal));
    assert_eq!(overlay_key(Mode::Help, true, &k(KeyCode::Enter)), OverlayStep::Leave(Mode::Normal));
    assert_eq!(overlay_key(Mode::Help, false, &k(KeyCode::Char('j'))), OverlayStep::Scroll(1));
    assert_eq!(overlay_key(Mode::Help, false, &k(KeyCode::PageUp)), OverlayStep::Scroll(-10));
    assert_eq!(overlay_key(Mode::Cell, false, &k(KeyCode::Char('y'))), OverlayStep::CopyCell);
    assert_eq!(overlay_key(Mode::Help, false, &k(KeyCode::Char('y'))), OverlayStep::Nothing);
    assert_eq!(close_overlay(Mode::Cell, true), Mode::Record);
    assert_eq!(close_overlay(Mode::ThemePicker, false), Mode::Normal);
    assert_eq!(close_overlay(Mode::Settings, true), Mode::Normal);
}

#[test]
fn tab_on_the_start_of_a_column_name() {
    let cols: Vec<String> = ["id", "region", "amount", "Amount_eur", "note"].iter().map(|s| s.to_string()).collect();
    assert!(matches!(complete_name("reg", "", &cols), Completion::One(n) if n == "region"));
    match complete_name("a", "", &cols) {
        Completion::Several(put, msg) => {
            assert_eq!(put.as_deref(), Some("amount"));
            assert_eq!(msg, "amount Amount_eur");
        }
        other => panic!("{other:?}"),
    }
    assert!(matches!(complete_name("zz", "", &cols), Completion::Refused(m) if m == "no column starts with \"zz\""));
    assert!(matches!(
        complete_name("zz", "actor", &cols),
        Completion::Refused(m) if m == "actor has no field \"zz\""
    ));
    let many: Vec<String> = (0..9).map(|i| format!("c{i}")).collect();
    match complete_name("c", "", &many) {
        Completion::Several(put, msg) => {
            assert_eq!(put, None, "the shared start is the typed start");
            assert_eq!(msg, "c0 c1 c2 c3 c4 c5 … +3");
        }
        other => panic!("{other:?}"),
    }
}

#[test]
fn a_path_splits_at_its_last_full_stop() {
    assert_eq!(split_path_word("payload.commits.sh"), ("payload.commits".to_string(), "sh".to_string()));
    assert_eq!(split_path_word("amo"), (String::new(), "amo".to_string()));
    assert_eq!(split_path_word("actor."), ("actor".to_string(), String::new()));
}

fn mouse(kind: MouseEventKind, x: u16, y: u16) -> MouseEvent {
    MouseEvent { kind, column: x, row: y, modifiers: KeyModifiers::none() }
}

#[test]
fn a_press_in_an_overlay_acts_on_its_line_or_leaves_it() {
    let h = overlay();
    let left = MouseEventKind::Down(MouseButton::Left);
    assert_eq!(overlay_press(Some(&h), Mode::Record, &mouse(left, 30, 5)), OverlayPress::Line(22));
    // The border and the space under the list hold no line.
    assert_eq!(overlay_press(Some(&h), Mode::Record, &mouse(left, 30, 2)), OverlayPress::Ignore);
    assert_eq!(overlay_press(Some(&h), Mode::Record, &mouse(left, 30, 12)), OverlayPress::Ignore);
    // A press outside the box leaves the overlay.
    assert_eq!(overlay_press(Some(&h), Mode::Record, &mouse(left, 5, 5)), OverlayPress::Close);
    // A box of another mode, or no box, tells the mouse nothing.
    assert_eq!(overlay_press(Some(&h), Mode::Palette, &mouse(left, 30, 5)), OverlayPress::Ignore);
    assert_eq!(overlay_press(None, Mode::Record, &mouse(left, 5, 5)), OverlayPress::Ignore);
    // The wheel moves the list, and the other buttons do nothing.
    assert_eq!(overlay_press(None, Mode::Record, &mouse(MouseEventKind::ScrollDown, 0, 0)), OverlayPress::Wheel(true));
    assert_eq!(overlay_press(Some(&h), Mode::Record, &mouse(MouseEventKind::ScrollUp, 30, 5)), OverlayPress::Wheel(false));
    let right = MouseEventKind::Down(MouseButton::Right);
    assert_eq!(overlay_press(Some(&h), Mode::Record, &mouse(right, 5, 5)), OverlayPress::Ignore);
}

#[test]
fn only_a_small_file_of_text_is_indexed_at_open() {
    assert_eq!(AUTO_INDEX_BYTES, 64 * 1024 * 1024);
    assert!(indexes_at_open(true, false, 1_000, 10));
    assert!(!indexes_at_open(false, false, 1_000, 10));
    assert!(!indexes_at_open(true, true, 1_000, 10));
    assert!(!indexes_at_open(true, false, AUTO_INDEX_BYTES, 10));
    assert!(indexes_at_open(true, false, AUTO_INDEX_BYTES - 1, AUTO_INDEX_COLUMNS));
    assert!(!indexes_at_open(true, false, 1_000, AUTO_INDEX_COLUMNS + 1));
}
