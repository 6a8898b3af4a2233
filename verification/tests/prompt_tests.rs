use peruse_tui::app::PromptKind;
use peruse_tui::input::LineInput;
use peruse_tui::keys::{KeyCode, KeyEvent, KeyModifiers};
use peruse_tui::prompt::{Prompt, PromptAction};

fn key(code: KeyCode) -> KeyEvent {
    KeyEvent::new(code, KeyModifiers::none())
}

fn enter(p: &mut Prompt, max_row: u64) -> PromptAction {
    p.on_key(&key(KeyCode::Enter), false, max_row)
}

fn row_prompt(text: &str) -> Prompt {
    Prompt::open(PromptKind::Goto, LineInput::default(), text)
}

#[test]
fn a_prompt_opens_with_its_text() {
    let p = Prompt::open(PromptKind::Filter, LineInput::default(), "amount > 5");
    assert_eq!(p.input.text(), "amount > 5");
    assert_eq!(p.kind, PromptKind::Filter);
    assert_eq!(p.error, None);
}

#[test]
fn a_row_number_moves_the_cursor_to_its_row() {
    // The first row has the number 1.
    assert!(matches!(enter(&mut row_prompt("1"), 99), PromptAction::Goto(0)));
    assert!(matches!(enter(&mut row_prompt(" 1,000 "), 5_000), PromptAction::Goto(999)));
    assert!(matches!(enter(&mut row_prompt("1_000_000"), 5_000), PromptAction::Goto(5_000)));
}

#[test]
fn a_row_number_waits_for_the_count() {
    match enter(&mut row_prompt("10"), u64::MAX) {
        PromptAction::Info(m) => assert_eq!(m, "still counting — try again in a moment"),
        other => panic!("no message: {other:?}"),
    }
}

#[test]
fn a_row_number_must_be_a_number_from_one() {
    match enter(&mut row_prompt(" twelve "), 99) {
        PromptAction::Fault(m) => assert_eq!(m, "not a row number: \"twelve\""),
        other => panic!("no fault: {other:?}"),
    }
    match enter(&mut row_prompt("0"), 99) {
        PromptAction::Fault(m) => assert_eq!(m, "not a row number: \"0\""),
        other => panic!("no fault: {other:?}"),
    }
    assert!(matches!(enter(&mut row_prompt("-3"), 99), PromptAction::Fault(_)));
}

#[test]
fn a_statement_needs_a_condition_after_where() {
    let mut p = Prompt::open(PromptKind::Sql, LineInput::default(), "SELECT * FROM t WHERE ");
    assert!(matches!(enter(&mut p, 9), PromptAction::Nothing));
    assert_eq!(p.error, Some("write a condition after WHERE, or press Esc".to_string()));
    let mut q = Prompt::open(PromptKind::Sql, LineInput::default(), "select * from t where");
    assert!(matches!(enter(&mut q, 9), PromptAction::Nothing));
    assert!(q.error.is_some());
}

#[test]
fn an_empty_statement_goes_back_to_the_file() {
    let mut p = Prompt::open(PromptKind::Sql, LineInput::default(), "   ");
    assert!(matches!(enter(&mut p, 9), PromptAction::Sql(None)));
}

#[test]
fn a_statement_is_checked_before_it_runs() {
    let mut p = Prompt::open(PromptKind::Sql, LineInput::default(), " SELECT 1 ");
    match enter(&mut p, 9) {
        PromptAction::Check(t) => assert_eq!(t, "SELECT 1"),
        other => panic!("no check: {other:?}"),
    }
    assert!(matches!(p.checked("SELECT 1".to_string(), Err("read only".to_string())), PromptAction::Nothing));
    assert_eq!(p.error, Some("read only".to_string()));
    match p.checked("SELECT 1".to_string(), Ok(())) {
        PromptAction::Sql(Some(t)) => assert_eq!(t, "SELECT 1"),
        other => panic!("no statement: {other:?}"),
    }
    assert_eq!(p.error, None);
}

#[test]
fn a_filter_is_checked_and_an_empty_one_removes_the_filter() {
    let mut p = Prompt::open(PromptKind::Filter, LineInput::default(), "  ");
    match enter(&mut p, 9) {
        PromptAction::Filter(t) => assert_eq!(t, ""),
        other => panic!("no filter: {other:?}"),
    }
    let mut q = Prompt::open(PromptKind::Filter, LineInput::default(), "a = 1");
    assert!(matches!(enter(&mut q, 9), PromptAction::Check(_)));
    match q.checked("a = 1".to_string(), Ok(())) {
        PromptAction::Filter(t) => assert_eq!(t, "a = 1"),
        other => panic!("no filter: {other:?}"),
    }
}

#[test]
fn a_search_takes_the_text_without_its_spaces() {
    let mut p = Prompt::open(PromptKind::Search, LineInput::default(), " alice ");
    match enter(&mut p, 9) {
        PromptAction::Search(t) => assert_eq!(t, "alice"),
        other => panic!("no search: {other:?}"),
    }
}

#[test]
fn a_change_of_sql_asks_for_a_check() {
    let mut p = Prompt::open(PromptKind::Filter, LineInput::default(), "");
    assert!(matches!(p.on_key(&key(KeyCode::Char('a')), false, 9), PromptAction::Recheck));
    p.set_fault(Err("bad".to_string()));
    assert_eq!(p.error, Some("bad".to_string()));
    // An empty line has no fault, and needs no check.
    assert!(matches!(p.on_key(&key(KeyCode::Backspace), false, 9), PromptAction::Nothing));
    assert_eq!(p.error, None);
    // A search is never checked.
    let mut s = Prompt::open(PromptKind::Search, LineInput::default(), "");
    assert!(matches!(s.on_key(&key(KeyCode::Char('a')), false, 9), PromptAction::Nothing));
}

#[test]
fn tab_completes_only_in_a_prompt_of_sql() {
    let mut p = Prompt::open(PromptKind::Sql, LineInput::default(), "SELECT am");
    assert!(matches!(p.on_key(&key(KeyCode::Tab), false, 9), PromptAction::Complete));
    assert!(matches!(p.on_key(&key(KeyCode::Right), true, 9), PromptAction::Complete));
    let ctrl = KeyEvent::new(KeyCode::Right, KeyModifiers::control());
    assert!(!matches!(p.on_key(&ctrl, true, 9), PromptAction::Complete));
    let mut s = Prompt::open(PromptKind::Search, LineInput::default(), "am");
    assert!(!matches!(s.on_key(&key(KeyCode::Tab), true, 9), PromptAction::Complete));
}

#[test]
fn esc_keeps_the_line_in_the_history() {
    let mut p = Prompt::open(PromptKind::Sql, LineInput::default(), "SELECT a, b FROM t");
    assert!(matches!(p.on_key(&key(KeyCode::Esc), false, 9), PromptAction::Close));
    let mut q = Prompt::open(PromptKind::Sql, p.input, "SELECT 1");
    q.on_key(&key(KeyCode::Up), false, 9);
    assert_eq!(q.input.text(), "SELECT a, b FROM t");
}
