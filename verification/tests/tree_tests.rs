use peruse_tui::overlays::family_word;
use peruse_tui::tree::{Family, Json, Line, Step, Tree, MAX_DEPTH};
use serde_json::Value;

const ROW: &str = r#"{
    "id": "249",
    "actor": {"id": 665991, "login": "petroav", "gravatar_id": ""},
    "payload": {"ref": "master", "push_id": null, "size": null,
                "commits": [{"sha": "aa", "message": "one"},
                            {"sha": "bb", "message": "two"}]},
    "public": true,
    "org": null
}"#;

fn to_json(v: &Value) -> Json {
    let pretty = serde_json::to_string_pretty(v).unwrap();
    match v {
        Value::Null => Json::Null,
        Value::Bool(b) => Json::Bool(*b),
        Value::Number(n) => Json::Number(n.to_string()),
        Value::String(s) => Json::Str(s.clone(), pretty),
        Value::Object(m) => Json::Object(m.iter().map(|(k, c)| (k.clone(), to_json(c))).collect(), pretty),
        Value::Array(a) => Json::Array(a.iter().map(to_json).collect(), pretty),
    }
}

fn tree(json: &str) -> Tree {
    Tree::new(json)
}

fn parsed(json: &str) -> Result<Json, String> {
    serde_json::from_str::<Value>(json).map(|v| to_json(&v)).map_err(|e| e.to_string())
}

fn labels(lines: &[Line]) -> Vec<String> {
    lines
        .iter()
        .map(|l| format!("{}{}", "  ".repeat(l.depth), l.label))
        .collect()
}

#[test]
fn the_columns_of_the_row_are_the_first_level() {
    let t = tree(ROW);
    let lines = t.lines("");
    assert_eq!(labels(&lines), ["id", "actor", "payload", "public", "org"]);
    assert!(lines.iter().all(|l| l.depth == 0));
}

#[test]
fn a_field_with_no_value_inside_a_structure_is_hidden_at_the_start() {
    let mut t = tree(ROW);
    t.open_path(&[Step::Field("payload".into())]);
    let found = labels(&t.lines(""));
    assert!(found.contains(&"  ref".to_string()), "{found:?}");
    assert!(!found.contains(&"  push_id".to_string()), "{found:?}");
    t.hide_empty = false;
    let found = labels(&t.lines(""));
    assert!(found.contains(&"  push_id".to_string()), "{found:?}");
}

#[test]
fn the_fields_keep_the_order_of_the_file() {
    let t = tree(r#"{"zebra": 1, "apple": 2, "mango": 3}"#);
    assert_eq!(labels(&t.lines("")), ["zebra", "apple", "mango"]);
}

#[test]
fn a_structure_opens_and_closes() {
    let mut t = tree(ROW);
    let actor = vec![Step::Field("actor".into())];
    assert!(!t.is_open(&actor));
    t.toggle(&actor);
    assert!(t.is_open(&actor));
    let lines = t.lines("");
    assert_eq!(
        labels(&lines),
        ["id", "actor", "  id", "  login", "  gravatar_id", "payload", "public", "org"]
    );
    t.toggle(&actor);
    assert_eq!(labels(&t.lines("")), ["id", "actor", "payload", "public", "org"]);
}

#[test]
fn a_list_shows_its_items_by_their_position() {
    let mut t = tree(ROW);
    t.open_path(&[Step::Field("payload".into())]);
    t.open_path(&[Step::Field("payload".into()), Step::Field("commits".into())]);
    let found = labels(&t.lines(""));
    assert!(found.contains(&"    [0]".to_string()), "{found:?}");
    assert!(found.contains(&"    [1]".to_string()), "{found:?}");
}

#[test]
fn a_structure_says_how_many_fields_it_hides() {
    let t = tree(ROW);
    let lines = t.lines("");
    let line = lines.iter().find(|l| l.label == "payload").unwrap();
    assert_eq!(line.value, "{2 of 4 fields}");
}

#[test]
fn showing_the_empty_fields_changes_the_short_form_of_a_structure() {
    let mut t = tree(ROW);
    t.hide_empty = false;
    let lines = t.lines("");
    let line = lines.iter().find(|l| l.label == "payload").unwrap();
    assert_eq!(line.value, "{4 fields}");
}

#[test]
fn a_null_and_an_empty_text_are_not_the_same() {
    let mut t = tree(r#"{"a": null, "b": "", "c": "x"}"#);
    t.hide_empty = false;
    let lines = t.lines("");
    let by = |n: &str| lines.iter().find(|l| l.label == n).unwrap();
    assert_eq!((by("a").value.as_str(), by("a").family), ("NULL", Family::Null));
    assert_eq!((by("b").value.as_str(), by("b").family), ("(empty)", Family::Empty));
    assert_eq!((by("c").value.as_str(), by("c").family), ("x", Family::Text));
    assert_eq!(family_word(by("a")), "null");
    assert_eq!(family_word(by("b")), "text");
}

#[test]
fn the_find_box_opens_the_way_to_a_match() {
    let t = tree(ROW);
    let found = labels(&t.lines("sha"));
    assert_eq!(
        found,
        ["payload", "  commits", "    [0]", "      sha", "    [1]", "      sha"]
    );
}

#[test]
fn the_find_box_also_looks_at_the_values() {
    let t = tree(ROW);
    let found = labels(&t.lines("petroav"));
    assert_eq!(found, ["actor", "  login"]);
    // The text of the box loses its white space and its capital letters.
    assert_eq!(labels(&t.lines("  PETROAV ")), ["actor", "  login"]);
}

#[test]
fn a_find_with_no_match_gives_no_line() {
    assert!(tree(ROW).lines("zzzz").is_empty());
}

#[test]
fn expand_all_opens_each_level_and_collapse_all_closes_them() {
    let mut t = tree(ROW);
    t.expand_all();
    let found = labels(&t.lines(""));
    assert!(found.contains(&"      sha".to_string()), "{found:?}");
    t.collapse_all();
    assert_eq!(t.lines("").iter().map(|l| l.depth).max().unwrap_or(0), 0);
}

#[test]
fn a_value_comes_back_by_its_path() {
    let t = tree(ROW);
    let p = vec![
        Step::Field("payload".into()),
        Step::Field("commits".into()),
        Step::Index(1),
        Step::Field("sha".into()),
    ];
    assert_eq!(t.value_at(&p), Some("bb".to_string()));
    let a = t.value_at(&[Step::Field("actor".into())]).unwrap();
    assert!(a.contains("\"login\""), "{a}");
    assert!(a.contains('\n'), "a structure must have line ends");
}

#[test]
fn a_path_that_no_value_holds_gives_nothing() {
    let t = tree(ROW);
    assert_eq!(t.value_at(&[Step::Field("nope".into())]), None);
    assert_eq!(t.value_at(&[Step::Field("actor".into()), Step::Index(9)]), None);
}

#[test]
fn a_row_that_is_not_json_gives_a_message_and_no_line() {
    let t = tree("{not json");
    assert!(t.is_empty());
    assert!(t.error.is_some());
    assert!(t.lines("").is_empty());
}

#[test]
fn an_empty_structure_and_an_empty_list_do_not_open() {
    let mut t = tree(r#"{"a": {}, "b": []}"#);
    t.hide_empty = false;
    for l in t.lines("") {
        assert!(!l.kind.opens(), "{} must not open", l.label);
    }
}

#[test]
fn a_very_deep_value_does_not_fill_the_memory() {
    let mut json = String::new();
    for _ in 0..200 {
        json.push_str("{\"a\":");
    }
    json.push('1');
    for _ in 0..200 {
        json.push('}');
    }
    let mut t = tree(&json);
    t.expand_all();
    let lines = t.lines("");
    assert!(lines.iter().all(|l| l.depth < MAX_DEPTH), "the tree went past the limit");
}

#[test]
fn a_tree_deeper_than_the_limit_stops_at_the_limit() {
    // Built by hand, a value can be deeper than the parser allows.
    let mut v = Json::Number("1".into());
    for _ in 0..100 {
        v = Json::Object(vec![("a".to_string(), v)], String::new());
    }
    let mut t = Tree::from_json(Ok(v));
    t.expand_all();
    let lines = t.lines("");
    assert_eq!(lines.len(), MAX_DEPTH);
    assert!(lines.iter().all(|l| l.depth < MAX_DEPTH));
}

#[test]
fn a_new_row_keeps_the_open_lines() {
    let mut t = tree(ROW);
    t.open_path(&[Step::Field("actor".into())]);
    let t = t.with_row(r#"{"actor": {"login": "x"}}"#);
    assert_eq!(labels(&t.lines("")), ["actor", "  login"]);
    assert!(t.as_json().unwrap().contains("\"login\""));
}

#[test]
fn a_tree_from_text_is_the_tree_from_the_parsed_row() {
    let a = Tree::new(ROW);
    let b = Tree::from_json(parsed(ROW));
    assert_eq!(labels(&a.lines("")), labels(&b.lines("")));
    assert_eq!(a.as_json(), b.as_json());
    assert_eq!(
        a.value_at(&[Step::Field("actor".into())]),
        b.value_at(&[Step::Field("actor".into())])
    );
    assert_eq!(a.value_at(&[Step::Field("id".into())]).as_deref(), Some("249"));
}

#[test]
fn a_new_parsed_row_keeps_the_open_lines() {
    let mut t = tree(ROW);
    t.open_path(&[Step::Field("actor".into())]);
    let t = t.with_parsed(parsed(r#"{"actor": {"login": "y"}}"#));
    assert_eq!(labels(&t.lines("")), ["actor", "  login"]);
}

#[test]
fn a_row_that_is_not_json_gives_the_message_of_the_parser() {
    let t = Tree::new("{not json");
    let e = serde_json::from_str::<Value>("{not json").unwrap_err().to_string();
    assert_eq!(t.error, Some(e));
    assert!(t.is_empty());
}
