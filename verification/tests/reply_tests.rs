use peruse_tui::reply::{Reply, ReplyOutcome, ReplyState};

fn state() -> ReplyState {
    ReplyState {
        epoch: 7,
        busy: false,
        indexing: true,
        seekable: false,
        meta_error: false,
        band_error: false,
        stats_error: false,
        cursor_row: 50,
        top_row: 45,
        viewport_rows: 10,
        cursor_col: 2,
        left_col: 1,
        names: vec!["id".to_string(), "name".to_string(), "amount".to_string()],
        widths: vec![5, 9, 14],
        hidden: vec![false, true, false],
        widths_fitted: true,
        record_row: Some(3),
    }
}

#[test]
fn an_answer_for_an_old_view_changes_nothing() {
    let mut s = state();
    assert!(matches!(s.take(Reply::Count { epoch: 6, total: 2 }), ReplyOutcome::Skip));
    assert_eq!(s.cursor_row, 50);
    assert!(matches!(s.take(Reply::Schema { epoch: 6, names: vec![] }), ReplyOutcome::Skip));
    assert_eq!(s.widths, vec![5, 9, 14]);
    // The index describes the file, whatever the epoch.
    match s.take(Reply::Indexed) {
        ReplyOutcome::Done(m) => assert_eq!(m, "indexed — jumping is now instant"),
        other => panic!("{other:?}"),
    }
    assert!(s.seekable && !s.indexing);
    assert!(matches!(s.take(Reply::Error { epoch: 1, context: "metadata".into(), message: "x".into() }), ReplyOutcome::Skip));
    assert!(s.meta_error);
}

#[test]
fn busy_asks_for_a_frame_only_when_it_changes() {
    let mut s = state();
    assert!(matches!(s.take(Reply::Busy(true)), ReplyOutcome::Draw));
    assert!(matches!(s.take(Reply::Busy(true)), ReplyOutcome::Skip));
}

#[test]
fn a_count_brings_the_cursor_back_to_the_last_row() {
    let mut s = state();
    assert!(matches!(s.take(Reply::Count { epoch: 7, total: 21 }), ReplyOutcome::Keep));
    assert_eq!((s.cursor_row, s.top_row), (20, 20));
    let mut t = state();
    t.take(Reply::Page { epoch: 7, max_row: 100 });
    assert_eq!(t.cursor_row, 50);
}

#[test]
fn new_columns_reset_the_widths_and_the_cursor() {
    let mut s = state();
    let same = vec!["id".to_string(), "name".to_string(), "amount".to_string()];
    assert!(matches!(s.take(Reply::Schema { epoch: 7, names: same }), ReplyOutcome::Keep));
    assert_eq!(s.cursor_col, 2);
    s.take(Reply::Schema { epoch: 7, names: vec!["a".into(), "b".into()] });
    assert_eq!(s.widths, vec![12, 12]);
    assert_eq!(s.hidden, vec![false, false]);
    assert_eq!((s.cursor_col, s.left_col, s.widths_fitted), (0, 0, false));
}

#[test]
fn a_failure_gives_the_first_line_and_stops_the_automatic_ask() {
    let mut s = state();
    let msg = "  Binder Error: no column \"x\"  \r\nLINE 1: SELECT ...".to_string();
    match s.take(Reply::Error { epoch: 7, context: "column band".into(), message: msg }) {
        ReplyOutcome::Fault(m) => assert_eq!(m, "column band: Binder Error: no column \"x\""),
        other => panic!("{other:?}"),
    }
    assert!(s.band_error && !s.stats_error && !s.indexing);
}

#[test]
fn a_row_for_another_record_is_not_kept() {
    let mut s = state();
    assert!(matches!(s.take(Reply::RowJson { epoch: 7, row: 4 }), ReplyOutcome::Skip));
    assert!(matches!(s.take(Reply::RowJson { epoch: 7, row: 3 }), ReplyOutcome::Keep));
}
