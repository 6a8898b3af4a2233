use peruse_tui::app::{Band, Mode, Panel, PromptKind};
use peruse_tui::command::{CommandContext, Effect, GridState};
use peruse_tui::commands::Cmd;

fn grid() -> GridState {
    GridState {
        cursor_row: 0,
        cursor_col: 0,
        top_row: 0,
        left_col: 0,
        panel: Panel::Nothing,
        band: Band::Off,
        band_error: true,
        widths: vec![12, 12, 12, 12],
        hidden: vec![false, true, false, false],
        theme_idx: 2,
        indexing: false,
        columns: vec!["id".to_string(), "name".to_string(), "city".to_string(), "age".to_string()],
        sort: None,
    }
}

fn ctx() -> CommandContext {
    CommandContext {
        viewport_rows: 10,
        max_row: 99,
        step: None,
        themes: 3,
        busy: false,
        seekable: false,
        filtered: true,
    }
}

#[test]
fn the_row_moves_stop_at_the_ends_and_the_window_follows() {
    let mut g = grid();
    let c = ctx();
    g.run(Cmd::PageDown, &c);
    assert_eq!(g.cursor_row, 10);
    assert_eq!(g.top_row, 1);
    g.run(Cmd::HalfPageDown, &c);
    assert_eq!(g.cursor_row, 15);
    g.run(Cmd::StepDown, &c);
    assert_eq!(g.cursor_row, 25);
    g.run(Cmd::Bottom, &c);
    assert_eq!(g.cursor_row, 99);
    assert_eq!(g.top_row, 90);
    g.run(Cmd::RowDown, &c);
    assert_eq!(g.cursor_row, 99);
    g.run(Cmd::Top, &c);
    assert_eq!((g.cursor_row, g.top_row), (0, 0));
    g.run(Cmd::RowUp, &c);
    assert_eq!(g.cursor_row, 0);
}

#[test]
fn a_jump_to_the_end_waits_for_the_count() {
    let mut g = grid();
    let c = CommandContext { max_row: u64::MAX, ..ctx() };
    match g.run(Cmd::Bottom, &c) {
        Effect::Info(m) => assert_eq!(m, "still counting — try again in a moment"),
        other => panic!("{other:?}"),
    }
    assert!(matches!(g.run(Cmd::LastCell, &c), Effect::Info(_)));
    assert_eq!(g.cursor_col, 0, "the cursor moved before the test of the count");
}

#[test]
fn the_column_moves_skip_the_hidden_columns() {
    let mut g = grid();
    let c = ctx();
    g.run(Cmd::ColRight, &c);
    assert_eq!(g.cursor_col, 2);
    g.run(Cmd::ColLast, &c);
    assert_eq!(g.cursor_col, 3);
    g.run(Cmd::ColFirst, &c);
    assert_eq!(g.cursor_col, 0);
    g.run(Cmd::LastCell, &c);
    assert_eq!((g.cursor_row, g.cursor_col), (99, 3));
    g.run(Cmd::Origin, &c);
    assert_eq!((g.cursor_row, g.top_row, g.cursor_col), (0, 0, 0));
}

#[test]
fn the_panel_keys_keep_the_other_panel() {
    let mut g = grid();
    let c = ctx();
    assert!(matches!(g.run(Cmd::ToggleMeta, &c), Effect::Panels));
    assert_eq!(g.panel, Panel::Meta);
    g.run(Cmd::ToggleStats, &c);
    assert_eq!(g.panel, Panel::Both);
    g.run(Cmd::ToggleMeta, &c);
    assert_eq!(g.panel, Panel::Stats);
    match g.run(Cmd::CyclePanels, &c) {
        Effect::PanelsNamed(m) => assert_eq!(m, "metadata and statistics"),
        other => panic!("{other:?}"),
    }
    // Esc with no query running closes the panels.
    assert!(matches!(g.run(Cmd::Cancel, &c), Effect::Nothing));
    assert_eq!(g.panel, Panel::Nothing);
    let busy = CommandContext { busy: true, ..ctx() };
    g.panel = Panel::Meta;
    assert!(matches!(g.run(Cmd::Cancel, &busy), Effect::CancelQuery));
    assert_eq!(g.panel, Panel::Meta);
}

#[test]
fn the_band_key_asks_again_after_a_failure() {
    let mut g = grid();
    assert!(matches!(g.run(Cmd::CycleBand, &ctx()), Effect::Band(Band::Compact)));
    assert!(!g.band_error);
}

#[test]
fn widths_hidden_columns_and_themes() {
    let mut g = grid();
    let c = ctx();
    g.run(Cmd::Widen, &c);
    assert_eq!(g.widths[0], 16);
    g.run(Cmd::Narrow, &c);
    g.run(Cmd::Narrow, &c);
    assert_eq!(g.widths[0], 8);
    assert!(matches!(g.run(Cmd::HideColumn, &c), Effect::Hidden(3)));
    assert_eq!(g.hidden, vec![true, true, false, false]);
    match g.run(Cmd::ShowAllColumns, &c) {
        Effect::Done(m) => assert_eq!(m, "2 column(s) shown"),
        other => panic!("{other:?}"),
    }
    assert!(matches!(g.run(Cmd::ThemeNext, &c), Effect::Theme(0)));
    assert!(matches!(g.run(Cmd::ThemePicker, &c), Effect::Open(Mode::ThemePicker)));
}

#[test]
fn clears_and_prompts() {
    let mut g = grid();
    let c = ctx();
    match g.run(Cmd::SortClear, &c) {
        Effect::Info(m) => assert_eq!(m, "not sorted"),
        other => panic!("{other:?}"),
    }
    assert!(matches!(g.run(Cmd::FilterClear, &c), Effect::ClearFilter));
    assert!(matches!(g.run(Cmd::GotoRow, &c), Effect::Prompt(PromptKind::Goto)));
    assert!(matches!(g.run(Cmd::SortCycle, &c), Effect::Sort));
    assert_eq!(g.sort, Some(("id".to_string(), false)));
    assert!(matches!(g.run(Cmd::SortClear, &c), Effect::ClearSort));
    assert_eq!(g.sort, None);
    assert!(matches!(g.run(Cmd::Quit, &c), Effect::Quit));
    assert!(matches!(g.run(Cmd::IndexCsv, &c), Effect::Index));
    match g.run(Cmd::IndexCsv, &c) {
        Effect::Info(m) => assert_eq!(m, "already indexing"),
        other => panic!("{other:?}"),
    }
    assert!(matches!(g.run(Cmd::ResetView, &c), Effect::ResetView));
    assert_eq!(g.hidden, vec![false; 4]);
}

#[test]
fn three_presses_of_s_sort_up_then_down_then_not_at_all() {
    let mut g = grid();
    let c = ctx();
    g.cursor_col = 2;
    assert!(matches!(g.run(Cmd::SortCycle, &c), Effect::Sort));
    assert_eq!(g.sort, Some(("city".to_string(), false)));
    assert!(matches!(g.run(Cmd::SortCycle, &c), Effect::Sort));
    assert_eq!(g.sort, Some(("city".to_string(), true)));
    assert!(matches!(g.run(Cmd::SortCycle, &c), Effect::Sort));
    assert_eq!(g.sort, None);
    assert!(matches!(g.run(Cmd::SortCycle, &c), Effect::Sort));
    assert_eq!(g.sort, Some(("city".to_string(), false)));
}

#[test]
fn s_on_another_column_starts_at_up() {
    let mut g = grid();
    let c = ctx();
    g.sort = Some(("id".to_string(), true));
    g.cursor_col = 3;
    g.run(Cmd::SortCycle, &c);
    assert_eq!(g.sort, Some(("age".to_string(), false)));
}

#[test]
fn s_past_the_last_column_changes_nothing() {
    let mut g = grid();
    let c = ctx();
    g.cursor_col = 7;
    g.sort = Some(("id".to_string(), true));
    assert!(matches!(g.run(Cmd::SortCycle, &c), Effect::Nothing));
    assert_eq!(g.sort, Some(("id".to_string(), true)));
}

#[test]
fn a_panel_key_runs_with_no_theme_and_flips_its_panel() {
    let mut g = grid();
    let c = CommandContext { themes: 0, ..ctx() };
    g.panel = Panel::Stats;
    g.run(Cmd::ToggleMeta, &c);
    assert_eq!(g.panel, Panel::Both);
    g.run(Cmd::ToggleMeta, &c);
    assert_eq!(g.panel, Panel::Stats);
    g.run(Cmd::ToggleStats, &c);
    assert_eq!(g.panel, Panel::Nothing);
}
