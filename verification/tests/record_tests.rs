use peruse_tui::record::{record_columns, record_name, record_note, record_title, RecordColumns};
use peruse_tui::keys::{KeyCode, KeyEvent, KeyModifiers};
use peruse_tui::record::{RecordAction, RecordView};
use peruse_tui::tree::{Json, Step};
use serde_json::Value;

const ROW: &str = r#"{
    "id": "249",
    "actor": {"id": 665991, "login": "petroav", "gravatar_id": ""},
    "payload": {"ref": "master", "push_id": null,
                "commits": [{"sha": "aa", "message": "one"},
                            {"sha": "bb", "message": "two"}]},
    "public": true,
    "org": null
}"#;

fn to_json(v: &Value) -> Json {
    let pretty = serde_json::to_string_pretty(v).unwrap();
    match v {
        Value::Null => Json::Null,
        Value::Bool(b) => Json::Bool(*b),
        Value::Number(n) => Json::Number(n.to_string()),
        Value::String(s) => Json::Str(s.clone(), pretty),
        Value::Object(m) => Json::Object(m.iter().map(|(k, c)| (k.clone(), to_json(c))).collect(), pretty),
        Value::Array(a) => Json::Array(a.iter().map(to_json).collect(), pretty),
    }
}

fn row(json: &str) -> Option<Result<Json, String>> {
    Some(serde_json::from_str::<Value>(json).map(|v| to_json(&v)).map_err(|e| e.to_string()))
}

fn key(code: KeyCode) -> KeyEvent {
    KeyEvent::new(code, KeyModifiers::none())
}

fn ch(c: char) -> KeyEvent {
    key(KeyCode::Char(c))
}

fn view() -> RecordView {
    let mut r = RecordView::new(0);
    r.show_row(Some(ROW));
    r
}

fn labels(r: &RecordView) -> Vec<String> {
    r.lines().iter().map(|l| format!("{}{}", "  ".repeat(l.depth), l.label)).collect()
}

fn selected(r: &RecordView) -> String {
    r.line().map(|l| l.label).unwrap_or_default()
}

#[test]
fn the_record_starts_with_the_columns_of_the_row() {
    let r = view();
    assert_eq!(labels(&r), ["id", "actor", "payload", "public", "org"]);
    assert_eq!(selected(&r), "id");
}

#[test]
fn the_arrows_open_a_value_and_go_back_to_the_line_that_holds_it() {
    let mut r = view();
    r.on_key(&ch('j'));
    assert_eq!(selected(&r), "actor");
    r.on_key(&key(KeyCode::Right));
    assert_eq!(labels(&r)[..4], ["id", "actor", "  id", "  login"]);
    // Down into the structure, then Left goes back to the line that holds it.
    r.on_key(&key(KeyCode::Down));
    assert_eq!(selected(&r), "id");
    r.on_key(&key(KeyCode::Left));
    assert_eq!(selected(&r), "actor");
    // On an open line, Left closes it.
    r.on_key(&key(KeyCode::Left));
    assert_eq!(labels(&r), ["id", "actor", "payload", "public", "org"]);
    // A line at the first level has nowhere to go back to.
    r.on_key(&key(KeyCode::Left));
    assert_eq!(selected(&r), "actor");
}

#[test]
fn the_space_opens_and_closes_the_selected_value() {
    let mut r = view();
    r.on_key(&key(KeyCode::Down));
    r.on_key(&ch(' '));
    assert!(labels(&r).contains(&"  login".to_string()));
    r.on_key(&ch(' '));
    assert_eq!(labels(&r), ["id", "actor", "payload", "public", "org"]);
}

#[test]
fn enter_shows_a_single_value_in_full() {
    let mut r = view();
    match r.on_key(&key(KeyCode::Enter)) {
        RecordAction::Inspect(v, path) => {
            assert_eq!(v, "249");
            assert_eq!(path.len(), 1);
            assert!(matches!(&path[0], Step::Field(n) if n == "id"));
        }
        other => panic!("Enter on a value gave {other:?}"),
    }
    // On a structure, Enter opens it instead.
    r.on_key(&key(KeyCode::Down));
    assert!(matches!(r.on_key(&key(KeyCode::Enter)), RecordAction::Nothing));
    assert!(labels(&r).contains(&"  login".to_string()));
}

#[test]
fn the_find_box_keeps_the_fields_that_match_and_a_second_esc_closes() {
    let mut r = view();
    r.on_key(&ch('/'));
    assert!(r.finding);
    for c in "log".chars() {
        r.on_key(&ch(c));
    }
    assert_eq!(r.find, "log");
    assert!(labels(&r).contains(&"  login".to_string()), "{:?}", labels(&r));
    // The first Esc empties the box, and the second one closes the view.
    assert!(matches!(r.on_key(&key(KeyCode::Esc)), RecordAction::Nothing));
    assert!(!r.finding);
    assert_eq!(r.find, "");
    assert!(matches!(r.on_key(&key(KeyCode::Esc)), RecordAction::Close));
}

#[test]
fn tab_takes_the_name_of_a_field() {
    let mut r = view();
    r.on_key(&ch('/'));
    for c in "pay".chars() {
        r.on_key(&ch(c));
    }
    assert_eq!(r.ghost().as_deref(), Some("load"));
    r.on_key(&key(KeyCode::Tab));
    assert_eq!(r.find, "payload");
    assert_eq!(r.input.text(), "payload");
    assert_eq!(r.sel, 0);
}

#[test]
fn the_copy_keys_give_the_value_the_row_and_the_path() {
    let mut r = view();
    r.on_key(&ch('j'));
    r.on_key(&key(KeyCode::Right));
    r.on_key(&ch('j'));
    r.on_key(&ch('j'));
    assert_eq!(selected(&r), "login");
    match r.on_key(&ch('y')) {
        RecordAction::Copy(v, what) => {
            assert_eq!(v, "petroav");
            assert_eq!(what, "value");
        }
        other => panic!("{other:?}"),
    }
    match r.on_key(&ch('P')) {
        RecordAction::CopyPath(p) => assert_eq!(p.len(), 2),
        other => panic!("{other:?}"),
    }
    match r.on_key(&ch('Y')) {
        RecordAction::Copy(j, what) => {
            assert_eq!(what, "record as JSON");
            assert!(j.contains("\"login\": \"petroav\""), "{j}");
        }
        other => panic!("{other:?}"),
    }
    match r.on_key(&ch('=')) {
        RecordAction::Filter(l, keep) => {
            assert_eq!(l.label, "login");
            assert!(keep);
        }
        other => panic!("{other:?}"),
    }
    assert!(matches!(r.on_key(&ch('!')), RecordAction::Filter(_, false)));
}

#[test]
fn a_record_with_no_row_says_so() {
    let mut r = RecordView::new(0);
    assert!(matches!(r.on_key(&ch('y')), RecordAction::Fault("no value here yet")));
    assert!(matches!(r.on_key(&ch('Y')), RecordAction::Fault("no row here yet")));
    assert!(matches!(r.on_key(&ch('P')), RecordAction::Fault("no field here")));
    assert!(matches!(r.on_key(&ch('=')), RecordAction::Nothing));
}

#[test]
fn the_keys_open_each_level_close_each_one_and_show_the_empty_fields() {
    let mut r = view();
    assert!(matches!(r.on_key(&ch('a')), RecordAction::Done("each level is open")));
    assert!(labels(&r).contains(&"      sha".to_string()), "{:?}", labels(&r));
    assert!(matches!(r.on_key(&ch('c')), RecordAction::Done("each level is closed")));
    assert_eq!(labels(&r), ["id", "actor", "payload", "public", "org"]);
    r.on_key(&ch('j'));
    r.on_key(&ch('j'));
    r.on_key(&ch('l'));
    assert!(!labels(&r).contains(&"  push_id".to_string()));
    assert!(matches!(r.on_key(&ch('z')), RecordAction::Done("each field is shown")));
    assert!(labels(&r).contains(&"  push_id".to_string()));
    assert_eq!(r.sel, 0);
    assert!(matches!(r.on_key(&ch('z')), RecordAction::Done("the fields with no value are hidden")));
}

#[test]
fn the_record_walks_the_rows_and_closes() {
    let mut r = view();
    assert!(matches!(r.on_key(&ch('n')), RecordAction::StepRow(1)));
    assert!(matches!(r.on_key(&ch('p')), RecordAction::StepRow(-1)));
    for c in ['q', 'r'] {
        assert!(matches!(r.on_key(&ch(c)), RecordAction::Close));
    }
    r.on_key(&key(KeyCode::End));
    assert_eq!(selected(&r), "org");
    r.on_key(&ch('g'));
    assert_eq!(selected(&r), "id");
    r.on_key(&ch('G'));
    assert_eq!(selected(&r), "org");
}

#[test]
fn the_open_lines_follow_the_user_to_the_next_row() {
    let mut r = view();
    r.on_key(&ch('j'));
    r.on_key(&ch('l'));
    r.on_key(&key(KeyCode::End));
    let next = r#"{"id": "250", "actor": {"id": 1, "login": "ann"}}"#;
    r.show_row(Some(next));
    assert_eq!(labels(&r), ["id", "actor", "  id", "  login"]);
    // The cursor stays inside the shorter list.
    assert_eq!(selected(&r), "login");
    r.show_row(None);
    assert!(r.lines().is_empty());
    assert_eq!(r.sel, 0);
}

#[test]
fn a_first_click_selects_and_a_second_click_opens() {
    let mut r = view();
    let (changed, _) = r.click(1, false);
    assert!(changed);
    assert_eq!(selected(&r), "actor");
    assert_eq!(labels(&r).len(), 5, "the first click opened the value");
    let (changed, _) = r.click(1, false);
    assert!(changed);
    assert!(labels(&r).contains(&"  login".to_string()));
    // A click past the last line does nothing.
    let (changed, _) = r.click(40, false);
    assert!(!changed);
    // A double click does what Enter does.
    let (changed, a) = r.click(0, true);
    assert!(changed);
    assert!(matches!(a, RecordAction::Nothing));
    let (_, a) = r.click(0, false);
    assert!(matches!(a, RecordAction::Nothing));
    let (changed, a) = r.click(0, true);
    assert!(changed);
    assert!(matches!(a, RecordAction::Inspect(v, _) if v == "249"));
}

#[test]
fn the_wheel_moves_the_list_and_never_writes_in_the_find_box() {
    let mut r = view();
    r.on_key(&ch('/'));
    assert!(r.wheel(true));
    assert_eq!(r.sel, 3);
    assert!(r.finding, "the wheel took the focus from the find box");
    assert!(r.input.is_empty());
    assert!(r.wheel(true));
    assert_eq!(r.sel, 4);
    assert!(!r.wheel(true), "the wheel at the end of the list moved");
    assert!(r.wheel(false));
    assert_eq!(r.sel, 1);
}

#[test]
fn a_column_can_open_with_the_record() {
    let mut r = RecordView::new(1);
    r.open_column("actor".into());
    r.show_row(Some(ROW));
    assert_eq!(labels(&r)[..3], ["id", "actor", "  id"]);
    assert_eq!(selected(&r), "actor");
}

#[test]
fn the_record_view_shares_its_width_between_name_type_and_value() {
    use_columns();
}

fn use_columns() {
    let wide = record_columns(100);
    assert_eq!(wide, RecordColumns { name_w: 40, type_w: 11, value_at: 53, value_w: 47 });
    let huge = record_columns(200);
    assert_eq!(huge.name_w, 44);
    let narrow = record_columns(30);
    assert_eq!(narrow, RecordColumns { name_w: 12, type_w: 0, value_at: 13, value_w: 17 });
    let tiny = record_columns(5);
    assert_eq!(tiny, RecordColumns { name_w: 8, type_w: 0, value_at: 9, value_w: 0 });
}

#[test]
fn the_record_view_names_its_row_and_its_lines() {
    assert_eq!(record_title("12", Some("1,000")), "record 12 of 1,000");
    assert_eq!(record_title("12", None), "record 12");
    assert_eq!(record_name(0, true, false, "actor"), "▸ actor");
    assert_eq!(record_name(2, true, true, "commits"), "    ▾ commits");
    assert_eq!(record_name(1, false, false, "id"), "    id");
    assert_eq!(record_note(None, false, ""), ("reading…".to_string(), " Esc closes "));
    assert_eq!(record_note(Some("bad JSON"), false, "").0, "cannot read this row: bad JSON");
    assert_eq!(record_note(None, true, "  "), ("this row holds no field".to_string(), " Esc clears the find box "));
    assert_eq!(record_note(None, true, "zz").0, "no field holds \"zz\"");
}

#[test]
fn a_parsed_row_shows_as_its_text_does() {
    let mut a = RecordView::new(0);
    a.show_row(Some(ROW));
    let mut b = RecordView::new(0);
    b.show_parsed(row(ROW));
    assert_eq!(labels(&a), labels(&b));
}

#[test]
fn a_row_that_is_not_json_shows_no_line_and_the_fault() {
    let mut r = RecordView::new(0);
    r.show_row(Some("{not json"));
    assert!(r.lines().is_empty());
    assert!(r.tree.error.is_some());
}
