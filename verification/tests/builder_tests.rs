use peruse_tui::app::Build;
use peruse_tui::builder::{BuildAction, BuildColumn, Editing, FilterBuilder, OpFacts, Term, EQUALS};
use peruse_tui::input::LineInput;
use peruse_tui::keys::{KeyCode, KeyEvent, KeyModifiers};

const LESS: u8 = 1;
const BETWEEN: u8 = 2;
const IS_NULL: u8 = 3;
const CONTAINS: u8 = 4;

fn op(code: u8, needs_value: bool, needs_second: bool) -> OpFacts {
    OpFacts { code, needs_value, needs_second }
}

/// The operators of a number: `<` first, so that `=` is not the first entry.
fn number_ops() -> Vec<OpFacts> {
    vec![op(LESS, true, false), op(EQUALS, true, false), op(BETWEEN, true, true), op(IS_NULL, false, false)]
}

/// The operators of a text, with no `=`.
fn text_ops() -> Vec<OpFacts> {
    vec![op(CONTAINS, true, false), op(IS_NULL, false, false)]
}

fn columns() -> Vec<BuildColumn> {
    vec![
        BuildColumn { name: "id".to_string(), ops: number_ops() },
        BuildColumn { name: "name".to_string(), ops: text_ops() },
        BuildColumn { name: "amount".to_string(), ops: number_ops() },
        BuildColumn { name: "region".to_string(), ops: number_ops() },
    ]
}

fn key(code: KeyCode) -> KeyEvent {
    KeyEvent::new(code, KeyModifiers::none())
}

fn ch(c: char) -> KeyEvent {
    key(KeyCode::Char(c))
}

fn open(n: usize, cursor: usize) -> FilterBuilder {
    match FilterBuilder::open(columns(), LineInput::default(), n, cursor) {
        Ok(b) => b,
        Err(_) => panic!("the builder did not open"),
    }
}

fn typed(b: &mut FilterBuilder, text: &str, n: usize) {
    for c in text.chars() {
        b.on_key(&ch(c), n, 0, false);
    }
}

#[test]
fn the_builder_needs_a_column() {
    match FilterBuilder::open(Vec::new(), LineInput::default(), 0, 0) {
        Err((_, m)) => assert_eq!(m, "no columns to filter on"),
        Ok(_) => panic!("a builder with no column"),
    }
}

#[test]
fn with_no_condition_the_builder_opens_on_the_column_of_the_cursor() {
    let b = open(0, 2);
    assert_eq!(b.step, Build::Column);
    assert_eq!(b.draft.col, 2);
    assert_eq!(b.pick, 2);
    assert_eq!(b.draft.op.code, EQUALS);
    assert_eq!(b.build_columns(), vec![0, 1, 2, 3]);
    // A cursor past the last column starts on the last one.
    assert_eq!(open(0, 9).draft.col, 3);
    // With conditions, the builder opens on their list.
    let l = open(2, 1);
    assert_eq!(l.step, Build::List);
    assert_eq!(l.sel, 0);
}

#[test]
fn the_menus_make_a_condition_on_the_typed_column() {
    let mut b = open(0, 0);
    typed(&mut b, "region", 0);
    assert_eq!(b.build_columns(), vec![3]);
    assert_eq!(b.pick, 0);
    assert!(matches!(b.on_key(&key(KeyCode::Enter), 0, 0, false), BuildAction::Nothing));
    assert_eq!(b.step, Build::Op);
    assert_eq!(b.draft.col, 3);
    // The menu opens on `=`, and not on its first entry.
    assert_eq!(b.pick, 1);
    assert_eq!(b.draft.op.code, EQUALS);
    b.on_key(&key(KeyCode::Enter), 0, 0, false);
    assert_eq!(b.step, Build::Value);
    typed(&mut b, "EU", 0);
    match b.on_key(&key(KeyCode::Enter), 0, 0, false) {
        BuildAction::Push(Term::Cmp { col, op, value, value2 }) => {
            assert_eq!(col, 3);
            assert_eq!(op, EQUALS);
            assert_eq!(value, "EU");
            assert_eq!(value2, "");
        }
        other => panic!("no condition: {other:?}"),
    }
    assert_eq!(b.step, Build::List);
    assert_eq!(b.sel, 0);
    assert_eq!(b.input.text(), "");
    // Enter in the list applies the filter.
    assert!(matches!(b.on_key(&key(KeyCode::Enter), 1, 0, false), BuildAction::Apply));
}

#[test]
fn a_column_without_equals_starts_on_its_first_operator() {
    let mut b = open(0, 1);
    b.on_key(&key(KeyCode::Enter), 0, 0, false);
    assert_eq!(b.step, Build::Op);
    assert_eq!(b.pick, 0);
    assert_eq!(b.draft.op.code, CONTAINS);
}

#[test]
fn an_operator_without_a_value_makes_the_condition_at_once() {
    let mut b = open(3, 0);
    b.on_key(&ch('a'), 3, 0, false);
    b.on_key(&key(KeyCode::Enter), 3, 0, false);
    b.on_key(&key(KeyCode::Down), 3, 0, false);
    b.on_key(&ch('j'), 3, 0, false);
    assert_eq!(b.pick, 3);
    // The selection stops at the last operator.
    b.on_key(&key(KeyCode::Down), 3, 0, false);
    assert_eq!(b.pick, 3);
    match b.on_key(&key(KeyCode::Enter), 3, 0, false) {
        BuildAction::Push(Term::Cmp { col, op, .. }) => {
            assert_eq!(col, 0);
            assert_eq!(op, IS_NULL);
        }
        other => panic!("no condition: {other:?}"),
    }
    // The new condition is the last of four, and the list selects it.
    assert_eq!(b.sel, 3);
}

#[test]
fn between_takes_two_values_and_esc_goes_back_one_step() {
    let mut b = open(0, 2);
    b.on_key(&key(KeyCode::Enter), 0, 0, false);
    b.on_key(&key(KeyCode::Down), 0, 0, false);
    assert_eq!(b.pick, 2);
    b.on_key(&key(KeyCode::Enter), 0, 0, false);
    assert_eq!(b.step, Build::Value);
    typed(&mut b, "10", 0);
    b.on_key(&key(KeyCode::Enter), 0, 0, false);
    assert_eq!(b.step, Build::Value2);
    assert_eq!(b.draft.value, "10");
    typed(&mut b, "20", 0);
    // Esc in the second value goes back to the first one, with its text.
    b.on_key(&key(KeyCode::Esc), 0, 0, false);
    assert_eq!(b.step, Build::Value);
    assert_eq!(b.input.text(), "10");
    b.on_key(&key(KeyCode::Enter), 0, 0, false);
    typed(&mut b, "20", 0);
    match b.on_key(&key(KeyCode::Enter), 0, 0, false) {
        BuildAction::Push(Term::Cmp { op, value, value2, .. }) => {
            assert_eq!(op, BETWEEN);
            assert_eq!(value, "10");
            assert_eq!(value2, "20");
        }
        other => panic!("no condition: {other:?}"),
    }
    // Esc in the first value goes back to the operators, and Esc there to
    // the columns.
    let mut c = open(0, 0);
    c.on_key(&key(KeyCode::Enter), 0, 0, false);
    c.on_key(&key(KeyCode::Enter), 0, 0, false);
    c.on_key(&key(KeyCode::Esc), 0, 0, false);
    assert_eq!(c.step, Build::Op);
    c.on_key(&key(KeyCode::Esc), 0, 0, false);
    assert_eq!(c.step, Build::Column);
    // With no condition in the list, Esc at the columns leaves the builder.
    assert!(matches!(c.on_key(&key(KeyCode::Esc), 0, 0, false), BuildAction::Cancel));
}

#[test]
fn esc_at_the_columns_goes_back_to_a_list_with_conditions() {
    let mut b = open(2, 0);
    b.on_key(&ch('+'), 2, 1, false);
    assert_eq!(b.step, Build::Column);
    typed(&mut b, "zz", 2);
    assert!(b.build_columns().is_empty());
    assert!(matches!(b.on_key(&key(KeyCode::Enter), 2, 0, false), BuildAction::Nothing));
    assert_eq!(b.step, Build::Column);
    assert!(matches!(b.on_key(&key(KeyCode::Esc), 2, 0, false), BuildAction::Nothing));
    assert_eq!(b.step, Build::List);
    assert_eq!(b.input.text(), "");
}

#[test]
fn editing_a_condition_keeps_its_parts_and_replaces_it() {
    let mut b = open(3, 0);
    b.on_key(&ch('j'), 3, 0, false);
    assert_eq!(b.sel, 1);
    match b.on_key(&ch('e'), 3, 0, false) {
        BuildAction::Edit(i) => assert_eq!(i, 1),
        other => panic!("no edit: {other:?}"),
    }
    b.begin(
        Some(1),
        Editing::Cmp { col: Some(2), op: op(BETWEEN, true, true), value: "1".to_string(), value2: "9".to_string() },
        0,
    );
    assert_eq!(b.step, Build::Column);
    assert_eq!(b.pick, 2);
    b.on_key(&key(KeyCode::Enter), 3, 0, false);
    assert_eq!(b.pick, 2);
    b.on_key(&key(KeyCode::Enter), 3, 0, false);
    assert_eq!(b.input.text(), "1");
    b.on_key(&key(KeyCode::Enter), 3, 0, false);
    assert_eq!(b.input.text(), "9");
    match b.on_key(&key(KeyCode::Enter), 3, 0, false) {
        BuildAction::Replace(i, Term::Cmp { col, op, value, value2 }) => {
            assert_eq!(i, 1);
            assert_eq!(col, 2);
            assert_eq!(op, BETWEEN);
            assert_eq!(value, "1");
            assert_eq!(value2, "9");
        }
        other => panic!("no replacement: {other:?}"),
    }
    assert_eq!(b.sel, 1);
}

#[test]
fn a_condition_on_a_lost_column_starts_on_the_first_one() {
    let mut b = open(1, 3);
    b.begin(Some(0), Editing::Cmp { col: None, op: op(EQUALS, true, false), value: "x".to_string(), value2: String::new() }, 3);
    assert_eq!(b.draft.col, 0);
    assert_eq!(b.pick, 0);
    assert_eq!(b.draft.edit, Some(0));
}

#[test]
fn the_list_keys_act_on_the_selected_condition() {
    let mut b = open(3, 0);
    // The first condition has no word in front of it.
    assert!(matches!(b.on_key(&ch('o'), 3, 0, false), BuildAction::Nothing));
    b.on_key(&key(KeyCode::Down), 3, 0, false);
    b.on_key(&key(KeyCode::Down), 3, 0, false);
    b.on_key(&key(KeyCode::Down), 3, 0, false);
    assert_eq!(b.sel, 2);
    match b.on_key(&ch('o'), 3, 0, false) {
        BuildAction::ToggleJoin(i) => assert_eq!(i, 2),
        other => panic!("no change of the word: {other:?}"),
    }
    match b.on_key(&ch('d'), 3, 0, false) {
        BuildAction::Remove(i) => assert_eq!(i, 2),
        other => panic!("no removal: {other:?}"),
    }
    // Two conditions are left, and the selection moves onto the last one.
    assert_eq!(b.sel, 1);
    b.on_key(&key(KeyCode::Up), 2, 0, false);
    b.on_key(&ch('k'), 2, 0, false);
    assert_eq!(b.sel, 0);
    assert!(matches!(b.on_key(&key(KeyCode::Backspace), 2, 0, false), BuildAction::Remove(0)));
    assert!(matches!(b.on_key(&key(KeyCode::Delete), 1, 0, false), BuildAction::Remove(0)));
    assert_eq!(b.sel, 0);
    // With no condition, `d` and `e` find nothing.
    assert!(matches!(b.on_key(&ch('d'), 0, 0, false), BuildAction::Nothing));
    assert!(matches!(b.on_key(&ch('e'), 0, 0, false), BuildAction::Nothing));
    assert!(matches!(b.on_key(&ch('c'), 2, 0, false), BuildAction::Clear));
    assert!(matches!(b.on_key(&key(KeyCode::Esc), 2, 0, false), BuildAction::Cancel));
    assert!(matches!(b.on_key(&ch('x'), 2, 0, false), BuildAction::Nothing));
}

#[test]
fn a_typed_expression_is_checked_before_it_joins_the_list() {
    let mut b = open(1, 0);
    b.on_key(&ch('r'), 1, 0, false);
    assert_eq!(b.step, Build::Raw);
    assert_eq!(b.draft.edit, None);
    typed(&mut b, "  amount > 5 ", 1);
    match b.on_key(&key(KeyCode::Enter), 1, 0, false) {
        BuildAction::Check(t) => assert_eq!(t, "amount > 5"),
        other => panic!("no check: {other:?}"),
    }
    // A refused expression stays, with the fault.
    let (a, kept) = b.checked(1, "amount > 5".to_string(), Err("not allowed".to_string()));
    assert!(matches!(a, BuildAction::Nothing));
    assert!(kept.is_none());
    assert_eq!(b.error, Some("not allowed".to_string()));
    assert_eq!(b.step, Build::Raw);
    // An accepted one goes to the end of the list, and into the history.
    let (a, kept) = b.checked(1, "amount > 5".to_string(), Ok(()));
    match a {
        BuildAction::Push(Term::Raw(t)) => assert_eq!(t, "amount > 5"),
        other => panic!("no condition: {other:?}"),
    }
    let kept = kept.expect("no copy of the editor");
    assert_eq!(kept.text(), "  amount > 5 ");
    assert_eq!(b.step, Build::List);
    assert_eq!(b.error, None);
    assert_eq!(b.input.text(), "");
    b.on_key(&ch('r'), 2, 0, false);
    b.on_key(&key(KeyCode::Up), 2, 0, false);
    assert_eq!(b.input.text(), "  amount > 5 ");
}

#[test]
fn an_edited_expression_replaces_its_condition_or_goes_away_when_blank() {
    let mut b = open(2, 0);
    b.begin(Some(1), Editing::Raw("a = 1".to_string()), 0);
    assert_eq!(b.step, Build::Raw);
    assert_eq!(b.input.text(), "a = 1");
    let (a, _) = b.checked(2, "a = 2".to_string(), Ok(()));
    assert!(matches!(a, BuildAction::Replace(1, Term::Raw(_))));
    b.begin(Some(1), Editing::Raw("a = 2".to_string()), 0);
    for _ in 0..5 {
        b.on_key(&key(KeyCode::Backspace), 2, 0, false);
    }
    b.on_key(&ch(' '), 2, 0, false);
    assert!(matches!(b.on_key(&key(KeyCode::Enter), 2, 0, false), BuildAction::Remove(1)));
    assert_eq!(b.step, Build::List);
    assert_eq!(b.sel, 0);
}

#[test]
fn the_text_step_completes_and_rechecks() {
    let mut b = open(0, 0);
    b.on_key(&key(KeyCode::Esc), 0, 0, false);
    let mut b = open(1, 0);
    b.on_key(&ch('r'), 1, 0, false);
    assert!(matches!(b.on_key(&key(KeyCode::Tab), 1, 0, false), BuildAction::Complete));
    assert!(matches!(b.on_key(&key(KeyCode::Right), 1, 0, true), BuildAction::Complete));
    // Without a completion, the arrow only moves the cursor of the line.
    assert!(matches!(b.on_key(&key(KeyCode::Right), 1, 0, false), BuildAction::Recheck));
    assert!(matches!(b.on_key(&ch('x'), 1, 0, false), BuildAction::Recheck));
    b.set_fault(Err("bad".to_string()));
    assert_eq!(b.error, Some("bad".to_string()));
    b.set_fault(Ok(()));
    assert_eq!(b.error, None);
    b.on_key(&key(KeyCode::Backspace), 1, 0, false);
    b.set_fault(Err("bad".to_string()));
    assert_eq!(b.error, None);
    // Esc goes back to the list; with an empty list it leaves the builder.
    assert!(matches!(b.on_key(&key(KeyCode::Esc), 1, 0, false), BuildAction::Nothing));
    assert_eq!(b.step, Build::List);
    b.on_key(&ch('r'), 0, 0, false);
    assert!(matches!(b.on_key(&key(KeyCode::Esc), 0, 0, false), BuildAction::Cancel));
}

#[test]
fn a_click_selects_and_a_double_click_acts() {
    let mut b = open(3, 0);
    assert_eq!(b.click(2, false, 3, 0).0, true);
    assert_eq!(b.sel, 2);
    assert_eq!(b.click(5, false, 3, 0).0, false);
    assert_eq!(b.sel, 2);
    // A double click in the list edits; it never applies the filter.
    let (changed, a) = b.click(2, true, 3, 0);
    assert!(changed);
    assert!(matches!(a, BuildAction::Edit(2)));
    b.on_key(&ch('a'), 3, 1, false);
    assert!(b.click(3, false, 3, 0).0);
    assert_eq!(b.pick, 3);
    assert!(!b.click(4, false, 3, 0).0);
    assert!(b.click(0, true, 3, 0).0);
    assert_eq!(b.step, Build::Op);
    assert_eq!(b.draft.col, 3);
    assert!(b.click(3, false, 3, 0).0);
    assert!(!b.click(4, false, 3, 0).0);
    assert!(b.click(1, false, 3, 0).0);
    b.click(1, true, 3, 0);
    assert_eq!(b.step, Build::Value);
    // A value step holds no list.
    assert_eq!(b.click(0, false, 3, 0).0, false);
    assert_eq!(b.click(0, true, 3, 0).0, false);
}

#[test]
fn the_wheel_moves_a_list_and_never_a_text_step() {
    let mut b = open(10, 0);
    b.wheel(true, 10);
    assert_eq!(b.sel, 3);
    b.wheel(true, 10);
    b.wheel(true, 10);
    b.wheel(true, 10);
    assert_eq!(b.sel, 9);
    b.wheel(false, 10);
    assert_eq!(b.sel, 6);
    b.on_key(&ch('a'), 10, 0, false);
    b.wheel(true, 10);
    assert_eq!(b.pick, 3);
    b.on_key(&key(KeyCode::Enter), 10, 0, false);
    b.on_key(&key(KeyCode::Enter), 10, 0, false);
    assert_eq!(b.step, Build::Value);
    typed(&mut b, "v42", 10);
    b.wheel(true, 10);
    b.wheel(false, 10);
    assert_eq!(b.step, Build::Value);
    assert_eq!(b.input.text(), "v42");
}
