//! The tree that the record view draws for one row.
//!
//! A JSON file, and a Parquet file with a structure inside it, hold a value
//! that holds other values. The grid can only show such a value as one long
//! text. This module makes a tree from the row instead: each field is one
//! line, and a line that holds other values opens and closes.
//!
//! The engine gives the row as JSON. `serde_json` reads that text, and this
//! module copies what it read into a [`Json`] value; it holds no terminal
//! code. It gives a list of lines, and the overlay draws them.

use vstd::prelude::*;

use crate::chars::{
    chars_of, contains_chars, decimal, decimal_text, holds_text, lower_text, lowercase_text,
    trimmed, trimmed_chars,
};
use serde_json::Value;

verus! {

broadcast use vstd::string::group_string_axioms;

/// The deepest level that the tree opens.
///
/// A file cannot make a tree deeper than this, but a limit stops a value that
/// points to itself from filling the memory.
pub const MAX_DEPTH: usize = 64;

/// One JSON value of a row.
///
/// A structure and a list also hold their own JSON text with line ends and
/// spaces, as `serde_json::to_string_pretty` writes it, and a text holds its
/// JSON form: the record view copies those texts.
#[derive(Debug)]
pub enum Json {
    /// `null`.
    Null,
    /// `true` or `false`.
    Bool(bool),
    /// A number, as the JSON text writes it.
    Number(String),
    /// A text, and its JSON form.
    Str(String, String),
    /// A structure: its fields in the order of the file, and its JSON text.
    Object(Vec<(String, Json)>, String),
    /// A list: its items, and its JSON text.
    Array(Vec<Json>, String),
}

/// One step of the path from the row to a value: the name of a field, or the
/// position in a list.
#[derive(Debug)]
pub enum Step {
    Field(String),
    Index(usize),
}

impl Clone for Step {
    fn clone(&self) -> (r: Step)
        ensures
            r == *self,
    {
        match self {
            Step::Field(n) => Step::Field(n.clone()),
            Step::Index(i) => Step::Index(*i),
        }
    }
}

/// A step as a value.
pub enum StepView {
    Field(Seq<char>),
    Index(nat),
}

/// The value of a step.
pub open spec fn step_view(s: Step) -> StepView {
    match s {
        Step::Field(n) => StepView::Field(n@),
        Step::Index(i) => StepView::Index(i as nat),
    }
}

/// The value of a path.
pub open spec fn path_view(p: Seq<Step>) -> Seq<StepView> {
    p.map_values(|s: Step| step_view(s))
}

/// What one line of the tree holds.
#[derive(Clone, Copy, Debug, PartialEq, Eq, Structural)]
pub enum NodeKind {
    /// A structure with this number of fields.
    Object(usize),
    /// A list with this number of items.
    Array(usize),
    /// One value.
    Leaf,
}

impl NodeKind {
    /// Gives `true` when the line can open: a structure or a list that holds
    /// something.
    pub fn opens(self) -> (r: bool)
        ensures
            r == self.spec_opens(),
    {
        match self {
            NodeKind::Object(n) | NodeKind::Array(n) => n > 0,
            NodeKind::Leaf => false,
        }
    }

    /// Whether the line can open.
    pub open spec fn spec_opens(self) -> bool {
        match self {
            NodeKind::Object(n) | NodeKind::Array(n) => n > 0,
            NodeKind::Leaf => false,
        }
    }
}

/// The family of a value, for the color that the record view paints it with.
#[derive(Clone, Copy, Debug, PartialEq, Eq, Structural)]
pub enum Family {
    /// The value is missing.
    Null,
    /// A text with no character.
    Empty,
    /// A number.
    Number,
    /// A value that is true or false.
    Bool,
    /// Text.
    Text,
    /// A structure or a list.
    Nested,
}

/// One line that the record view draws.
#[derive(Debug)]
pub struct Line {
    /// The level of the line. The columns of the row have the level 0.
    pub depth: usize,
    /// The name of the field, or the position in a list, as `[3]`.
    pub label: String,
    /// What the line holds.
    pub kind: NodeKind,
    /// The value as text, or a short form for a structure or a list.
    pub value: String,
    /// The family of the value.
    pub family: Family,
    /// The path from the row to this value.
    pub path: Vec<Step>,
    /// `true` when the line is open.
    pub open: bool,
}

/// A line as values.
pub struct LineView {
    pub depth: nat,
    pub label: Seq<char>,
    pub kind: NodeKind,
    pub value: Seq<char>,
    pub family: Family,
    pub path: Seq<StepView>,
    pub open: bool,
}

/// The value of a line.
pub open spec fn line_view(l: Line) -> LineView {
    LineView {
        depth: l.depth as nat,
        label: l.label@,
        kind: l.kind,
        value: l.value@,
        family: l.family,
        path: path_view(l.path@),
        open: l.open,
    }
}

/// The values of a list of lines.
pub open spec fn lines_view(ls: Seq<Line>) -> Seq<LineView> {
    ls.map_values(|l: Line| line_view(l))
}

/// The text of a value that is true or false.
pub open spec fn bool_text(b: bool) -> Seq<char> {
    if b { "true"@ } else { "false"@ }
}

/// The label of a step: the name of a field, or the position in brackets.
pub open spec fn label_text(s: StepView) -> Seq<char> {
    match s {
        StepView::Field(n) => n,
        StepView::Index(i) => "["@ + decimal(i) + "]"@,
    }
}

/// The label that the find box looks at: a name in small letters, or the
/// position in brackets.
pub open spec fn search_label(s: StepView) -> Seq<char> {
    match s {
        StepView::Field(n) => lower_text(n),
        StepView::Index(i) => label_text(s),
    }
}

/// Gives `true` when a value, or a value below it, holds the text that the
/// find box holds, from the level `depth`.
pub open spec fn matches(step: StepView, v: Json, needle: Seq<char>, depth: nat) -> bool
    decreases v, 0nat,
{
    if needle.len() == 0 {
        true
    } else if holds_text(search_label(step), needle) {
        true
    } else if depth >= MAX_DEPTH {
        false
    } else {
        match v {
            Json::Object(m, _) => any_field(m@, 0, needle, depth + 1),
            Json::Array(a, _) => any_item(a@, 0, needle, depth + 1),
            Json::Null => false,
            Json::Str(s, _) => holds_text(lower_text(s@), needle),
            Json::Bool(b) => holds_text(lower_text(bool_text(b)), needle),
            Json::Number(n) => holds_text(lower_text(n@), needle),
        }
    }
}

/// Gives `true` when a field from the position `i` on matches.
pub open spec fn any_field(fields: Seq<(String, Json)>, i: int, needle: Seq<char>, depth: nat) -> bool
    decreases fields, fields.len() - i,
{
    if i < 0 || i >= fields.len() {
        false
    } else {
        matches(StepView::Field(fields[i].0@), fields[i].1, needle, depth) || any_field(
            fields,
            i + 1,
            needle,
            depth,
        )
    }
}

/// Gives `true` when an item from the position `i` on matches.
pub open spec fn any_item(items: Seq<Json>, i: int, needle: Seq<char>, depth: nat) -> bool
    decreases items, items.len() - i,
{
    if i < 0 || i >= items.len() {
        false
    } else {
        matches(StepView::Index(i as nat), items[i], needle, depth) || any_item(
            items,
            i + 1,
            needle,
            depth,
        )
    }
}

/// The number of fields of a structure that hold a value.
pub open spec fn present(fields: Seq<(String, Json)>) -> nat
    decreases fields.len(),
{
    if fields.len() == 0 {
        0
    } else {
        (if fields.last().1 is Null { 0nat } else { 1nat }) + present(fields.drop_last())
    }
}

/// What a line holds, its text and its family, for a value. A structure says
/// how many of its fields hold a value while the tree hides the others.
pub open spec fn describe(v: Json, hide_empty: bool) -> (NodeKind, Seq<char>, Family) {
    match v {
        Json::Null => (NodeKind::Leaf, "NULL"@, Family::Null),
        Json::Bool(b) => (NodeKind::Leaf, bool_text(b), Family::Bool),
        Json::Number(n) => (NodeKind::Leaf, n@, Family::Number),
        Json::Str(s, _) => if s@.len() == 0 {
            (NodeKind::Leaf, "(empty)"@, Family::Empty)
        } else {
            (NodeKind::Leaf, s@, Family::Text)
        },
        Json::Object(m, _) => {
            let set = present(m@);
            let text = if hide_empty && set < m@.len() {
                "{"@ + decimal(set) + " of "@ + decimal(m@.len()) + " fields}"@
            } else {
                "{"@ + decimal(m@.len()) + " fields}"@
            };
            (NodeKind::Object(m@.len() as usize), text, Family::Nested)
        },
        Json::Array(a, _) => (NodeKind::Array(a@.len() as usize), "["@ + decimal(a@.len()) + " items]"@, Family::Nested),
    }
}

/// The lines of one value and of the values below it.
///
/// A value past [`MAX_DEPTH`] gives no line. A field with no value inside a
/// structure is the absence of that field in this row, and the tree hides it
/// while `hide_empty` holds; a column of the row (the level 0) always shows.
/// A value that does not hold the text of the find box gives no line. An open
/// line is followed by the lines of its values; a search opens each line that
/// can open, so the user sees the way to each match.
pub open spec fn walk(
    hide_empty: bool,
    open: Set<Seq<StepView>>,
    needle: Seq<char>,
    step: StepView,
    v: Json,
    parent: Seq<StepView>,
    depth: nat,
) -> Seq<LineView>
    decreases v, 0nat,
{
    if depth >= MAX_DEPTH {
        Seq::empty()
    } else if hide_empty && depth > 0 && v is Null {
        Seq::empty()
    } else if !matches(step, v, needle, depth) {
        Seq::empty()
    } else {
        let path = parent.push(step);
        let d = describe(v, hide_empty);
        let is_open = d.0.spec_opens() && (open.contains(path) || needle.len() > 0);
        let line = LineView {
            depth,
            label: label_text(step),
            kind: d.0,
            value: d.1,
            family: d.2,
            path,
            open: is_open,
        };
        seq![line] + if is_open {
            match v {
                Json::Object(m, _) => walk_fields(hide_empty, open, needle, m@, 0, path, depth + 1),
                Json::Array(a, _) => walk_items(hide_empty, open, needle, a@, 0, path, depth + 1),
                _ => Seq::empty(),
            }
        } else {
            Seq::empty()
        }
    }
}

/// The lines of the fields from the position `i` on.
pub open spec fn walk_fields(
    hide_empty: bool,
    open: Set<Seq<StepView>>,
    needle: Seq<char>,
    fields: Seq<(String, Json)>,
    i: int,
    parent: Seq<StepView>,
    depth: nat,
) -> Seq<LineView>
    decreases fields, fields.len() - i,
{
    if i < 0 || i >= fields.len() {
        Seq::empty()
    } else {
        walk(hide_empty, open, needle, StepView::Field(fields[i].0@), fields[i].1, parent, depth)
            + walk_fields(hide_empty, open, needle, fields, i + 1, parent, depth)
    }
}

/// The lines of the items from the position `i` on.
pub open spec fn walk_items(
    hide_empty: bool,
    open: Set<Seq<StepView>>,
    needle: Seq<char>,
    items: Seq<Json>,
    i: int,
    parent: Seq<StepView>,
    depth: nat,
) -> Seq<LineView>
    decreases items, items.len() - i,
{
    if i < 0 || i >= items.len() {
        Seq::empty()
    } else {
        walk(hide_empty, open, needle, StepView::Index(i as nat), items[i], parent, depth)
            + walk_items(hide_empty, open, needle, items, i + 1, parent, depth)
    }
}

/// Gives a copy of a step.
fn copy_step(s: &Step) -> (r: Step)
    ensures
        r == *s,
{
    s.clone()
}

/// Gives a copy of a path.
fn copy_path(p: &[Step]) -> (r: Vec<Step>)
    ensures
        r@ == p@,
{
    let mut out: Vec<Step> = Vec::new();
    let mut i: usize = 0;
    while i < p.len()
        invariant
            i <= p@.len(),
            out@ == p@.take(i as int),
        decreases p@.len() - i,
    {
        out.push(copy_step(&p[i]));
        i += 1;
        assert(out@ =~= p@.take(i as int));
    }
    assert(p@.take(i as int) =~= p@);
    out
}

/// Gives `true` when two steps are the same step.
fn same_step(a: &Step, b: &Step) -> (r: bool)
    ensures
        r == (step_view(*a) == step_view(*b)),
{
    match (a, b) {
        (Step::Field(x), Step::Field(y)) => crate::chars::same_str(x.as_str(), y.as_str()),
        (Step::Index(x), Step::Index(y)) => *x == *y,
        _ => false,
    }
}

/// Gives `true` when two paths are the same path.
fn same_path(a: &[Step], b: &[Step]) -> (r: bool)
    ensures
        r == (path_view(a@) == path_view(b@)),
{
    if a.len() != b.len() {
        assert(path_view(a@).len() != path_view(b@).len());
        return false;
    }
    let mut i: usize = 0;
    while i < a.len()
        invariant
            i <= a@.len() == b@.len(),
            forall|k: int| 0 <= k < i ==> step_view(a@[k]) == step_view(b@[k]),
        decreases a@.len() - i,
    {
        if !same_step(&a[i], &b[i]) {
            assert(path_view(a@)[i as int] != path_view(b@)[i as int]);
            return false;
        }
        i += 1;
    }
    assert(path_view(a@) =~= path_view(b@));
    true
}

/// The text of a number.
fn number_text(n: usize) -> (r: String)
    ensures
        r@ == decimal(n as nat),
{
    decimal_text(n as u64)
}

/// Gives the label of a step.
fn label_of(s: &Step) -> (r: String)
    ensures
        r@ == label_text(step_view(*s)),
{
    match s {
        Step::Field(n) => n.clone(),
        Step::Index(i) => {
            let mut out = String::from_str("[");
            let d = number_text(*i);
            out.append(d.as_str());
            out.append("]");
            out
        },
    }
}

/// Gives the label that the find box looks at.
fn search_label_of(s: &Step) -> (r: Vec<char>)
    ensures
        r@ == search_label(step_view(*s)),
{
    match s {
        Step::Field(n) => chars_of(lowercase_text(n.as_str()).as_str()),
        Step::Index(_) => chars_of(label_of(s).as_str()),
    }
}

/// Gives `true` when the small letters of a text hold the needle.
fn lower_holds(t: &str, needle: &Vec<char>) -> (r: bool)
    ensures
        r == holds_text(lower_text(t@), needle@),
{
    let low = chars_of(lowercase_text(t).as_str());
    contains_chars(&low, needle)
}

/// Gives `true` when a value, or a value below it, holds the needle.
fn matches_exec(step: &Step, v: &Json, needle: &Vec<char>, depth: usize) -> (r: bool)
    ensures
        r == matches(step_view(*step), *v, needle@, depth as nat),
    decreases MAX_DEPTH - depth,
{
    if needle.len() == 0 {
        return true;
    }
    let label = search_label_of(step);
    if contains_chars(&label, needle) {
        return true;
    }
    if depth >= MAX_DEPTH {
        return false;
    }
    match v {
        Json::Object(m, _) => {
            let mut i: usize = 0;
            while i < m.len()
                invariant
                    i <= m@.len(),
                    depth < MAX_DEPTH,
                    any_field(m@, 0, needle@, (depth + 1) as nat) == any_field(m@, i as int, needle@, (depth + 1) as nat),
                    matches(step_view(*step), *v, needle@, depth as nat) == any_field(m@, 0, needle@, (depth + 1) as nat),
                decreases m@.len() - i,
            {
                let s = Step::Field(m[i].0.clone());
                assert(step_view(s) == StepView::Field(m@[i as int].0@));
                let hit = matches_exec(&s, &m[i].1, needle, depth + 1);
                assert(any_field(m@, i as int, needle@, (depth + 1) as nat) == (hit || any_field(
                    m@,
                    i + 1,
                    needle@,
                    (depth + 1) as nat,
                )));
                if hit {
                    return true;
                }
                i += 1;
            }
            false
        },
        Json::Array(a, _) => {
            let mut i: usize = 0;
            while i < a.len()
                invariant
                    i <= a@.len(),
                    depth < MAX_DEPTH,
                    any_item(a@, 0, needle@, (depth + 1) as nat) == any_item(a@, i as int, needle@, (depth + 1) as nat),
                    matches(step_view(*step), *v, needle@, depth as nat) == any_item(a@, 0, needle@, (depth + 1) as nat),
                decreases a@.len() - i,
            {
                let s = Step::Index(i);
                let hit = matches_exec(&s, &a[i], needle, depth + 1);
                assert(any_item(a@, i as int, needle@, (depth + 1) as nat) == (hit || any_item(
                    a@,
                    i + 1,
                    needle@,
                    (depth + 1) as nat,
                )));
                if hit {
                    return true;
                }
                i += 1;
            }
            false
        },
        Json::Null => false,
        Json::Str(t, _) => lower_holds(t.as_str(), needle),
        Json::Bool(b) => lower_holds(if *b { "true" } else { "false" }, needle),
        Json::Number(n) => lower_holds(n.as_str(), needle),
    }
}

/// Counts the fields of a structure that hold a value.
fn count_present(m: &Vec<(String, Json)>) -> (r: usize)
    ensures
        r == present(m@),
        r <= m@.len(),
{
    let mut n: usize = 0;
    let mut i: usize = 0;
    while i < m.len()
        invariant
            i <= m@.len(),
            n == present(m@.take(i as int)),
            n <= i,
        decreases m@.len() - i,
    {
        assert(m@.take(i + 1).drop_last() =~= m@.take(i as int));
        if !matches!(m[i].1, Json::Null) {
            n += 1;
        }
        i += 1;
    }
    assert(m@.take(i as int) =~= m@);
    n
}

/// Gives what a line holds, its text and its family.
fn describe_exec(v: &Json, hide_empty: bool) -> (r: (NodeKind, String, Family))
    ensures
        (r.0, r.1@, r.2) == describe(*v, hide_empty),
{
    match v {
        Json::Null => (NodeKind::Leaf, String::from_str("NULL"), Family::Null),
        Json::Bool(b) => (NodeKind::Leaf, String::from_str(if *b { "true" } else { "false" }), Family::Bool),
        Json::Number(n) => (NodeKind::Leaf, n.clone(), Family::Number),
        Json::Str(t, _) => {
            if t.as_str().is_empty() {
                (NodeKind::Leaf, String::from_str("(empty)"), Family::Empty)
            } else {
                (NodeKind::Leaf, t.clone(), Family::Text)
            }
        },
        Json::Object(m, _) => {
            let set = count_present(m);
            let mut text = String::from_str("{");
            if hide_empty && set < m.len() {
                text.append(number_text(set).as_str());
                text.append(" of ");
            }
            text.append(number_text(m.len()).as_str());
            text.append(" fields}");
            (NodeKind::Object(m.len()), text, Family::Nested)
        },
        Json::Array(a, _) => {
            let mut text = String::from_str("[");
            text.append(number_text(a.len()).as_str());
            text.append(" items]");
            (NodeKind::Array(a.len()), text, Family::Nested)
        },
    }
}

/// The open paths after a line opens when it was closed, or closes when it
/// was open.
pub open spec fn toggled(open: Set<Seq<StepView>>, p: Seq<StepView>) -> Set<Seq<StepView>> {
    if open.contains(p) {
        open.remove(p)
    } else {
        open.insert(p)
    }
}

/// A line that opens and closes again leaves the tree as it was, and so
/// does a line that closes and opens again.
pub proof fn toggling_twice_changes_nothing(open: Set<Seq<StepView>>, p: Seq<StepView>)
    ensures
        toggled(toggled(open, p), p) == open,
{
    if open.contains(p) {
        assert(toggled(toggled(open, p), p) =~= open);
    } else {
        assert(toggled(toggled(open, p), p) =~= open);
    }
}

/// A JSON value of `serde_json`, which the library holds only to copy it into
/// a [`Json`].
#[verifier::external_type_specification]
#[verifier::external_body]
pub struct ExValue(Value);

/// The message with which `serde_json::from_str` refuses a text, or `None`
/// for a text that it reads as one JSON value.
pub uninterp spec fn json_fault(text: Seq<char>) -> Option<Seq<char>>;

/// Reads a text as one JSON value with `serde_json::from_str`, and gives the
/// value or the message of the error (its `Display` text).
///
/// The contract says which texts it refuses, and with which message, by the
/// name [`json_fault`]: both depend on the text alone. What the value holds is
/// left unsaid: a `serde_json::Value` is opaque here.
#[verifier::external_body]
fn read_json(text: &str) -> (r: Result<Value, String>)
    ensures
        match r {
            Ok(_) => json_fault(text@) is None,
            Err(e) => json_fault(text@) == Some(e@),
        },
{
    serde_json::from_str::<Value>(text).map_err(|e| e.to_string())
}

/// One level of a `serde_json::Value`: its variant, with the values that it
/// holds still in the form of `serde_json`.
enum Level<'a> {
    Null,
    Bool(bool),
    Number(String),
    Text(String),
    Object(Vec<(String, &'a Value)>),
    Array(Vec<&'a Value>),
}

/// Tells the variants of a `serde_json::Value` apart: a number comes back as
/// its `Display` text, the fields of a structure in the order of the map
/// (the order of the file, with the feature `preserve_order`).
///
/// Nothing is stated of the result: the value is opaque here.
#[verifier::external_body]
fn level_of<'a>(v: &'a Value) -> (r: Level<'a>) {
    match v {
        Value::Null => Level::Null,
        Value::Bool(b) => Level::Bool(*b),
        Value::Number(n) => Level::Number(n.to_string()),
        Value::String(s) => Level::Text(s.clone()),
        Value::Object(m) => Level::Object(m.iter().map(|(k, c)| (k.clone(), c)).collect()),
        Value::Array(a) => Level::Array(a.iter().collect()),
    }
}

/// Writes a value as JSON with line ends and spaces, with
/// `serde_json::to_string_pretty`; `None` where that gives an error.
///
/// Nothing is stated of the text: the value is opaque here.
#[verifier::external_body]
fn pretty_json(v: &Value) -> (r: Option<String>) {
    serde_json::to_string_pretty(v).ok()
}

/// Writes a value as JSON on one line, with its `Display` text.
///
/// Nothing is stated of the text: the value is opaque here.
#[verifier::external_body]
fn compact_json(v: &Value) -> (r: String) {
    v.to_string()
}

/// How many levels of structures and lists [`json_of`] copies.
///
/// `serde_json::from_str` refuses a text with 128 or more levels, so a
/// value that it read never reaches this.
pub const JSON_DEPTH: usize = 128;

/// The JSON text of a value with line ends and spaces, or on one line where
/// `serde_json` could not write it so.
fn json_text_of(v: &Value) -> (r: String) {
    match pretty_json(v) {
        Some(p) => p,
        None => compact_json(v),
    }
}

/// Copies a value of `serde_json` into a [`Json`], with the JSON text of each
/// structure, list and text. Below `depth` levels of structures and lists a
/// value is copied as `null`.
fn json_of(v: &Value, depth: usize) -> (r: Json)
    decreases depth,
{
    match level_of(v) {
        Level::Null => Json::Null,
        Level::Bool(b) => Json::Bool(b),
        Level::Number(n) => Json::Number(n),
        Level::Text(s) => Json::Str(s, json_text_of(v)),
        Level::Object(fields) => {
            if depth == 0 {
                return Json::Null;
            }
            let mut out: Vec<(String, Json)> = Vec::new();
            let mut i: usize = 0;
            while i < fields.len()
                invariant
                    i <= fields@.len(),
                    depth > 0,
                decreases fields@.len() - i,
            {
                let name = fields[i].0.clone();
                out.push((name, json_of(fields[i].1, depth - 1)));
                i += 1;
            }
            Json::Object(out, json_text_of(v))
        },
        Level::Array(items) => {
            if depth == 0 {
                return Json::Null;
            }
            let mut out: Vec<Json> = Vec::new();
            let mut i: usize = 0;
            while i < items.len()
                invariant
                    i <= items@.len(),
                    depth > 0,
                decreases items@.len() - i,
            {
                out.push(json_of(items[i], depth - 1));
                i += 1;
            }
            Json::Array(out, json_text_of(v))
        },
    }
}

/// One row, as a tree that opens and closes.
#[derive(Debug)]
pub struct Tree {
    root: Option<Json>,
    /// The path of each line that is open, each one once.
    open: Vec<Vec<Step>>,
    /// `true` while the tree hides the fields that hold no value.
    pub hide_empty: bool,
    /// The message from a row that the program could not read.
    pub error: Option<String>,
}

impl Tree {
    /// The row that the tree shows.
    pub closed spec fn root_value(&self) -> Option<Json> {
        self.root
    }

    /// The paths of the lines that are open.
    pub closed spec fn paths(&self) -> Set<Seq<StepView>> {
        Set::new(|p: Seq<StepView>| exists|i: int| 0 <= i < self.open@.len() && path_view(#[trigger] self.open@[i]@) == p)
    }

    /// Whether the tree hides the fields that hold no value.
    pub closed spec fn hides_empty(&self) -> bool {
        self.hide_empty
    }

    /// The message of a row that the program could not read.
    pub closed spec fn fault(&self) -> Option<String> {
        self.error
    }

    /// The tree keeps each open path once.
    pub closed spec fn wf(&self) -> bool {
        forall|i: int, j: int|
            0 <= i < j < self.open@.len() ==> path_view(#[trigger] self.open@[i]@) != path_view(#[trigger] self.open@[j]@)
    }

    /// The lines of the tree for the text of the find box `needle`: for a row
    /// that is a structure, the lines of its fields at the level 0, and for
    /// another row the lines of the value under the name `value`.
    pub open spec fn spec_lines(&self, needle: Seq<char>) -> Seq<LineView> {
        match self.root_value() {
            None => Seq::empty(),
            Some(Json::Object(m, _)) => walk_fields(self.hides_empty(), self.paths(), needle, m@, 0, Seq::empty(), 0),
            Some(other) => walk(self.hides_empty(), self.paths(), needle, StepView::Field("value"@), other, Seq::empty(), 0),
        }
    }
}

impl Default for Tree {
    /// The tree with no row in it. It hides the empty fields, as a tree with a
    /// row does, so the record view does not change when the row arrives.
    fn default() -> (r: Tree)
        ensures
            r.root_value() is None,
            r.paths() == Set::<Seq<StepView>>::empty(),
            r.hides_empty(),
            r.fault() is None,
            r.wf(),
    {
        let r = Tree { root: None, open: Vec::new(), hide_empty: true, error: None };
        assert(r.paths() =~= Set::<Seq<StepView>>::empty());
        r
    }
}

impl Tree {
    /// Makes a tree from one row, as the program read it from JSON: the row,
    /// or the message of the fault.
    ///
    /// The tree starts with the columns of the row, and with no structure
    /// inside a column open. It hides the fields that hold no value at the
    /// start: a structure that DuckDB reads from a JSON file holds one field
    /// for each field of each row of the file, so one row holds a value in a
    /// few of them, and those NULLs are the absence of a field in that row.
    pub fn from_json(parsed: Result<Json, String>) -> (r: Tree)
        ensures
            r.root_value() == match parsed {
                Ok(j) => Some(j),
                Err(_) => None::<Json>,
            },
            r.fault() == match parsed {
                Ok(_) => None::<String>,
                Err(e) => Some(e),
            },
            r.paths() == Set::<Seq<StepView>>::empty(),
            r.hides_empty(),
            r.wf(),
    {
        let r = match parsed {
            Ok(root) => Tree { root: Some(root), open: Vec::new(), hide_empty: true, error: None },
            Err(e) => Tree { root: None, open: Vec::new(), hide_empty: true, error: Some(e) },
        };
        assert(r.paths() =~= Set::<Seq<StepView>>::empty());
        r
    }

    /// Makes a tree from one row of JSON text.
    ///
    /// A row that is not JSON gives a tree with the message of the parser and
    /// no line. Otherwise the tree holds what `serde_json` read, and starts as
    /// [`Tree::from_json`] says.
    pub fn new(json: &str) -> (r: Tree)
        ensures
            r.root_value() is Some <==> json_fault(json@) is None,
            match r.fault() {
                None => json_fault(json@) is None,
                Some(e) => json_fault(json@) == Some(e@),
            },
            r.paths() == Set::<Seq<StepView>>::empty(),
            r.hides_empty(),
            r.wf(),
    {
        match read_json(json) {
            Ok(v) => Tree::from_json(Ok(json_of(&v, JSON_DEPTH))),
            Err(e) => Tree::from_json(Err(e)),
        }
    }

    /// Gives `true` when the tree holds no row yet.
    pub fn is_empty(&self) -> (r: bool)
        ensures
            r == self.root_value() is None,
    {
        self.root.is_none()
    }

    /// Puts another row in the tree, and keeps the lines that are open.
    ///
    /// The user moves from row to row to compare one field. A tree that
    /// closed at each row would make that impossible.
    pub fn with_row(self, json: &str) -> (r: Tree)
        requires
            self.wf(),
        ensures
            r.root_value() is Some <==> json_fault(json@) is None,
            match r.fault() {
                None => json_fault(json@) is None,
                Some(e) => json_fault(json@) == Some(e@),
            },
            r.paths() == self.paths(),
            r.hides_empty() == self.hides_empty(),
            r.wf(),
    {
        let mut t = Tree::new(json);
        t.open = self.open;
        t.hide_empty = self.hide_empty;
        t
    }

    /// Puts another row in the tree as [`Tree::with_row`] does, from the row
    /// that `serde_json` read or the message of its fault.
    pub fn with_parsed(self, parsed: Result<Json, String>) -> (r: Tree)
        requires
            self.wf(),
        ensures
            r.root_value() == match parsed {
                Ok(j) => Some(j),
                Err(_) => None::<Json>,
            },
            r.fault() == match parsed {
                Ok(_) => None::<String>,
                Err(e) => Some(e),
            },
            r.paths() == self.paths(),
            r.hides_empty() == self.hides_empty(),
            r.wf(),
    {
        let mut t = Tree::from_json(parsed);
        t.open = self.open;
        t.hide_empty = self.hide_empty;
        t
    }

    /// Gives the position of a path among the open paths.
    fn find(&self, path: &[Step]) -> (r: Option<usize>)
        ensures
            match r {
                Some(i) => i < self.open@.len() && path_view(self.open@[i as int]@) == path_view(path@),
                None => !self.paths().contains(path_view(path@)),
            },
    {
        let mut i: usize = 0;
        while i < self.open.len()
            invariant
                i <= self.open@.len(),
                forall|k: int| 0 <= k < i ==> path_view(#[trigger] self.open@[k]@) != path_view(path@),
            decreases self.open@.len() - i,
        {
            if same_path(self.open[i].as_slice(), path) {
                return Some(i);
            }
            i += 1;
        }
        None
    }

    /// Gives `true` when a line is open.
    pub fn is_open(&self, path: &[Step]) -> (r: bool)
        ensures
            r == self.paths().contains(path_view(path@)),
    {
        match self.find(path) {
            Some(i) => {
                assert(self.paths().contains(path_view(path@)));
                true
            },
            None => false,
        }
    }

    /// Opens a line.
    pub fn open_path(&mut self, path: &[Step])
        requires
            old(self).wf(),
        ensures
            final(self).wf(),
            final(self).paths() == old(self).paths().insert(path_view(path@)),
            final(self).root_value() == old(self).root_value(),
            final(self).hides_empty() == old(self).hides_empty(),
            final(self).fault() == old(self).fault(),
    {
        if self.find(path).is_none() {
            let p = copy_path(path);
            self.open.push(p);
            assert(self.paths() =~= old(self).paths().insert(path_view(path@))) by {
                assert(self.open@[self.open@.len() - 1] == p);
                assert forall|q: Seq<StepView>| old(self).paths().insert(path_view(path@)).contains(q) implies self.paths().contains(q) by {
                    if q != path_view(path@) {
                        let i = choose|i: int| 0 <= i < old(self).open@.len() && path_view(#[trigger] old(self).open@[i]@) == q;
                        assert(self.open@[i] == old(self).open@[i]);
                    }
                }
                assert forall|q: Seq<StepView>| self.paths().contains(q) implies old(self).paths().insert(path_view(path@)).contains(q) by {
                    let i = choose|i: int| 0 <= i < self.open@.len() && path_view(#[trigger] self.open@[i]@) == q;
                    if i < old(self).open@.len() {
                        assert(self.open@[i] == old(self).open@[i]);
                    }
                }
            }
        } else {
            assert(self.paths() =~= old(self).paths().insert(path_view(path@)));
        }
    }

    /// Closes a line.
    pub fn close_path(&mut self, path: &[Step])
        requires
            old(self).wf(),
        ensures
            final(self).wf(),
            final(self).paths() == old(self).paths().remove(path_view(path@)),
            final(self).root_value() == old(self).root_value(),
            final(self).hides_empty() == old(self).hides_empty(),
            final(self).fault() == old(self).fault(),
    {
        match self.find(path) {
            None => {
                assert(self.paths() =~= old(self).paths().remove(path_view(path@)));
            },
            Some(i) => {
                let ghost before = self.open@;
                self.open.remove(i);
                assert forall|a: int, b: int| 0 <= a < b < self.open@.len() implies path_view(#[trigger] self.open@[a]@) != path_view(#[trigger] self.open@[b]@) by {
                    let a2 = if a < i { a } else { a + 1 };
                    let b2 = if b < i { b } else { b + 1 };
                    assert(self.open@[a] == before[a2]);
                    assert(self.open@[b] == before[b2]);
                }
                assert(self.paths() =~= old(self).paths().remove(path_view(path@))) by {
                    assert forall|q: Seq<StepView>| self.paths().contains(q) implies old(self).paths().remove(path_view(path@)).contains(q) by {
                        let k = choose|k: int| 0 <= k < self.open@.len() && path_view(#[trigger] self.open@[k]@) == q;
                        let k2 = if k < i { k } else { k + 1 };
                        assert(self.open@[k] == before[k2]);
                        assert(k2 != i);
                    }
                    assert forall|q: Seq<StepView>| old(self).paths().remove(path_view(path@)).contains(q) implies self.paths().contains(q) by {
                        let k = choose|k: int| 0 <= k < before.len() && path_view(#[trigger] before[k]@) == q;
                        assert(k != i);
                        let k2 = if k < i { k } else { k - 1 };
                        assert(self.open@[k2] == before[k]);
                    }
                }
            },
        }
    }

    /// Opens a line, or closes it.
    pub fn toggle(&mut self, path: &[Step])
        requires
            old(self).wf(),
        ensures
            final(self).wf(),
            final(self).paths() == toggled(old(self).paths(), path_view(path@)),
            final(self).root_value() == old(self).root_value(),
            final(self).hides_empty() == old(self).hides_empty(),
            final(self).fault() == old(self).fault(),
    {
        if self.is_open(path) {
            self.close_path(path);
        } else {
            self.open_path(path);
        }
    }

    /// Closes each line.
    /// Gives `true` while the tree hides the fields that hold no value.
    pub fn hides_empty_fields(&self) -> (r: bool)
        ensures
            r == self.hides_empty(),
    {
        self.hide_empty
    }

    /// Hides the fields that hold no value, or shows them.
    pub fn set_hides_empty(&mut self, hide: bool)
        requires
            old(self).wf(),
        ensures
            final(self).wf(),
            final(self).hides_empty() == hide,
            final(self).paths() == old(self).paths(),
            final(self).root_value() == old(self).root_value(),
            final(self).fault() == old(self).fault(),
    {
        self.hide_empty = hide;
    }

    pub fn collapse_all(&mut self)
        ensures
            final(self).wf(),
            final(self).paths() == Set::<Seq<StepView>>::empty(),
            final(self).root_value() == old(self).root_value(),
            final(self).hides_empty() == old(self).hides_empty(),
            final(self).fault() == old(self).fault(),
    {
        self.open = Vec::new();
        assert(self.paths() =~= Set::<Seq<StepView>>::empty());
    }
}

impl Tree {
    /// Adds the lines of one value, and of the values below it, to `out`.
    fn walk_into(
        &self,
        needle: &Vec<char>,
        step: &Step,
        v: &Json,
        parent: &Vec<Step>,
        depth: usize,
        out: &mut Vec<Line>,
    )
        ensures
            lines_view(final(out)@) == lines_view(old(out)@) + walk(
                self.hides_empty(),
                self.paths(),
                needle@,
                step_view(*step),
                *v,
                path_view(parent@),
                depth as nat,
            ),
        decreases MAX_DEPTH - depth,
    {
        let ghost target = lines_view(old(out)@) + walk(
            self.hides_empty(),
            self.paths(),
            needle@,
            step_view(*step),
            *v,
            path_view(parent@),
            depth as nat,
        );
        if depth >= MAX_DEPTH {
            assert(lines_view(out@) + Seq::<LineView>::empty() =~= lines_view(out@));
            return;
        }
        if self.hide_empty && depth > 0 && matches!(v, Json::Null) {
            assert(lines_view(out@) + Seq::<LineView>::empty() =~= lines_view(out@));
            return;
        }
        if !matches_exec(step, v, needle, depth) {
            assert(lines_view(out@) + Seq::<LineView>::empty() =~= lines_view(out@));
            return;
        }
        let mut path = copy_path(parent.as_slice());
        path.push(copy_step(step));
        let ghost pv = path_view(parent@).push(step_view(*step));
        assert(path_view(path@) =~= pv);
        let (kind, value, family) = describe_exec(v, self.hide_empty);
        let open = kind.opens() && (self.is_open(path.as_slice()) || needle.len() > 0);
        let label = label_of(step);
        let line = Line { depth, label, kind, value, family, path: copy_path(path.as_slice()), open };
        let ghost lv = line_view(line);
        let ghost before = lines_view(out@);
        out.push(line);
        assert(lines_view(out@) =~= before + seq![lv]);
        let ghost children = if open {
            match v {
                Json::Object(m, _) => walk_fields(self.hides_empty(), self.paths(), needle@, m@, 0, pv, (depth + 1) as nat),
                Json::Array(a, _) => walk_items(self.hides_empty(), self.paths(), needle@, a@, 0, pv, (depth + 1) as nat),
                _ => Seq::empty(),
            }
        } else {
            Seq::empty()
        };
        assert(walk(self.hides_empty(), self.paths(), needle@, step_view(*step), *v, path_view(parent@), depth as nat)
            == seq![lv] + children);
        proof {
            vstd::seq_lib::lemma_concat_associative(before, seq![lv], children);
        }
        if open {
            match v {
                Json::Object(m, _) => {
                    let mut i: usize = 0;
                    while i < m.len()
                        invariant
                            i <= m@.len(),
                            depth < MAX_DEPTH,
                            path_view(path@) == pv,
                            lines_view(out@) + walk_fields(
                                self.hides_empty(),
                                self.paths(),
                                needle@,
                                m@,
                                i as int,
                                pv,
                                (depth + 1) as nat,
                            ) == target,
                        decreases m@.len() - i,
                    {
                        let s = Step::Field(m[i].0.clone());
                        assert(step_view(s) == StepView::Field(m@[i as int].0@));
                        let ghost mid = lines_view(out@);
                        self.walk_into(needle, &s, &m[i].1, &path, depth + 1, out);
                        proof {
                            vstd::seq_lib::lemma_concat_associative(
                            mid,
                            walk(self.hides_empty(), self.paths(), needle@, step_view(s), m@[i as int].1, pv, (depth + 1) as nat),
                            walk_fields(self.hides_empty(), self.paths(), needle@, m@, i + 1, pv, (depth + 1) as nat),
                        );
                        }
                        i += 1;
                    }
                    assert(lines_view(out@) + Seq::<LineView>::empty() =~= lines_view(out@));
                },
                Json::Array(a, _) => {
                    let mut i: usize = 0;
                    while i < a.len()
                        invariant
                            i <= a@.len(),
                            depth < MAX_DEPTH,
                            path_view(path@) == pv,
                            lines_view(out@) + walk_items(
                                self.hides_empty(),
                                self.paths(),
                                needle@,
                                a@,
                                i as int,
                                pv,
                                (depth + 1) as nat,
                            ) == target,
                        decreases a@.len() - i,
                    {
                        let s = Step::Index(i);
                        let ghost mid = lines_view(out@);
                        self.walk_into(needle, &s, &a[i], &path, depth + 1, out);
                        proof {
                            vstd::seq_lib::lemma_concat_associative(
                            mid,
                            walk(self.hides_empty(), self.paths(), needle@, step_view(s), a@[i as int], pv, (depth + 1) as nat),
                            walk_items(self.hides_empty(), self.paths(), needle@, a@, i + 1, pv, (depth + 1) as nat),
                        );
                        }
                        i += 1;
                    }
                    assert(lines_view(out@) + Seq::<LineView>::empty() =~= lines_view(out@));
                },
                _ => {
                    assert(lines_view(out@) + Seq::<LineView>::empty() =~= lines_view(out@));
                },
            }
        } else {
            assert(lines_view(out@) + Seq::<LineView>::empty() =~= lines_view(out@));
        }
    }

    /// Gives the lines that the record view draws.
    ///
    /// The text `find`, without the white space at its ends and in small
    /// letters, keeps the lines whose name or value holds it. A line that holds
    /// a match below it stays, and it opens, so the user sees the way to the
    /// match.
    pub fn lines(&self, find: &str) -> (r: Vec<Line>)
        ensures
            lines_view(r@) == self.spec_lines(lower_text(trimmed(find@))),
    {
        let mut out: Vec<Line> = Vec::new();
        let root = match &self.root {
            None => {
                assert(lines_view(out@) =~= Seq::<LineView>::empty());
                return out;
            },
            Some(root) => root,
        };
        let t = trimmed_chars(find);
        let ts = crate::chars::text_of(t.as_slice());
        let needle = chars_of(lowercase_text(ts.as_str()).as_str());
        let top: Vec<Step> = Vec::new();
        assert(path_view(top@) =~= Seq::<StepView>::empty());
        assert(lines_view(out@) =~= Seq::<LineView>::empty());
        match root {
            Json::Object(m, _) => {
                let mut i: usize = 0;
                while i < m.len()
                    invariant
                        i <= m@.len(),
                        path_view(top@) == Seq::<StepView>::empty(),
                        lines_view(out@) + walk_fields(
                            self.hides_empty(),
                            self.paths(),
                            needle@,
                            m@,
                            i as int,
                            Seq::empty(),
                            0,
                        ) == walk_fields(self.hides_empty(), self.paths(), needle@, m@, 0, Seq::empty(), 0),
                    decreases m@.len() - i,
                {
                    let s = Step::Field(m[i].0.clone());
                    assert(step_view(s) == StepView::Field(m@[i as int].0@));
                    let ghost mid = lines_view(out@);
                    self.walk_into(&needle, &s, &m[i].1, &top, 0, &mut out);
                    proof {
                        vstd::seq_lib::lemma_concat_associative(
                        mid,
                        walk(self.hides_empty(), self.paths(), needle@, step_view(s), m@[i as int].1, Seq::empty(), 0),
                        walk_fields(self.hides_empty(), self.paths(), needle@, m@, i + 1, Seq::empty(), 0),
                    );
                    }
                    i += 1;
                }
                assert(lines_view(out@) + Seq::<LineView>::empty() =~= lines_view(out@));
            },
            other => {
                let s = Step::Field(String::from_str("value"));
                self.walk_into(&needle, &s, other, &top, 0, &mut out);
                assert(Seq::<LineView>::empty() + walk(self.hides_empty(), self.paths(), needle@, step_view(s), *other, Seq::empty(), 0)
                    =~= walk(self.hides_empty(), self.paths(), needle@, step_view(s), *other, Seq::empty(), 0));
            },
        }
        out
    }
}

/// The path of each value that holds other values, from the level `depth`
/// on, in the order of the file. The row itself, with the empty path, is not
/// one of them.
pub open spec fn collect(v: Json, path: Seq<StepView>, depth: nat) -> Seq<Seq<StepView>>
    decreases v, 0nat,
{
    if depth >= MAX_DEPTH {
        Seq::empty()
    } else {
        match v {
            Json::Object(m, _) => (if path.len() > 0 { seq![path] } else { Seq::empty() }) + collect_fields(m@, 0, path, depth + 1),
            Json::Array(a, _) => (if path.len() > 0 { seq![path] } else { Seq::empty() }) + collect_items(a@, 0, path, depth + 1),
            _ => Seq::empty(),
        }
    }
}

/// The paths of the structures and lists inside the fields from `i` on.
pub open spec fn collect_fields(fields: Seq<(String, Json)>, i: int, path: Seq<StepView>, depth: nat) -> Seq<Seq<StepView>>
    decreases fields, fields.len() - i,
{
    if i < 0 || i >= fields.len() {
        Seq::empty()
    } else {
        collect(fields[i].1, path.push(StepView::Field(fields[i].0@)), depth) + collect_fields(fields, i + 1, path, depth)
    }
}

/// The paths of the structures and lists inside the items from `i` on.
pub open spec fn collect_items(items: Seq<Json>, i: int, path: Seq<StepView>, depth: nat) -> Seq<Seq<StepView>>
    decreases items, items.len() - i,
{
    if i < 0 || i >= items.len() {
        Seq::empty()
    } else {
        collect(items[i], path.push(StepView::Index(i as nat)), depth) + collect_items(items, i + 1, path, depth)
    }
}

/// The values of a list of paths.
pub open spec fn paths_view(ps: Seq<Vec<Step>>) -> Seq<Seq<StepView>> {
    ps.map_values(|p: Vec<Step>| path_view(p@))
}

/// Adds the path of each value that holds other values to `out`.
fn collect_into(v: &Json, path: &Vec<Step>, depth: usize, out: &mut Vec<Vec<Step>>)
    ensures
        paths_view(final(out)@) == paths_view(old(out)@) + collect(*v, path_view(path@), depth as nat),
    decreases MAX_DEPTH - depth,
{
    let ghost target = paths_view(old(out)@) + collect(*v, path_view(path@), depth as nat);
    if depth >= MAX_DEPTH {
        assert(paths_view(out@) + Seq::<Seq<StepView>>::empty() =~= paths_view(out@));
        return;
    }
    match v {
        Json::Object(m, _) => {
            let ghost before = paths_view(out@);
            if path.len() > 0 {
                out.push(copy_path(path.as_slice()));
            }
            let ghost own = if path@.len() > 0 { seq![path_view(path@)] } else { Seq::<Seq<StepView>>::empty() };
            assert(paths_view(out@) =~= before + own);
            proof {
                vstd::seq_lib::lemma_concat_associative(before, own, collect_fields(m@, 0, path_view(path@), (depth + 1) as nat));
            }
            let mut i: usize = 0;
            while i < m.len()
                invariant
                    i <= m@.len(),
                    depth < MAX_DEPTH,
                    paths_view(out@) + collect_fields(m@, i as int, path_view(path@), (depth + 1) as nat) == target,
                decreases m@.len() - i,
            {
                let mut child = copy_path(path.as_slice());
                child.push(Step::Field(m[i].0.clone()));
                assert(path_view(child@) =~= path_view(path@).push(StepView::Field(m@[i as int].0@)));
                let ghost mid = paths_view(out@);
                collect_into(&m[i].1, &child, depth + 1, out);
                proof {
                    vstd::seq_lib::lemma_concat_associative(
                        mid,
                        collect(m@[i as int].1, path_view(child@), (depth + 1) as nat),
                        collect_fields(m@, i + 1, path_view(path@), (depth + 1) as nat),
                    );
                }
                i += 1;
            }
            assert(paths_view(out@) + Seq::<Seq<StepView>>::empty() =~= paths_view(out@));
        },
        Json::Array(a, _) => {
            let ghost before = paths_view(out@);
            if path.len() > 0 {
                out.push(copy_path(path.as_slice()));
            }
            let ghost own = if path@.len() > 0 { seq![path_view(path@)] } else { Seq::<Seq<StepView>>::empty() };
            assert(paths_view(out@) =~= before + own);
            proof {
                vstd::seq_lib::lemma_concat_associative(before, own, collect_items(a@, 0, path_view(path@), (depth + 1) as nat));
            }
            let mut i: usize = 0;
            while i < a.len()
                invariant
                    i <= a@.len(),
                    depth < MAX_DEPTH,
                    paths_view(out@) + collect_items(a@, i as int, path_view(path@), (depth + 1) as nat) == target,
                decreases a@.len() - i,
            {
                let mut child = copy_path(path.as_slice());
                child.push(Step::Index(i));
                assert(path_view(child@) =~= path_view(path@).push(StepView::Index(i as nat)));
                let ghost mid = paths_view(out@);
                collect_into(&a[i], &child, depth + 1, out);
                proof {
                    vstd::seq_lib::lemma_concat_associative(
                        mid,
                        collect(a@[i as int], path_view(child@), (depth + 1) as nat),
                        collect_items(a@, i + 1, path_view(path@), (depth + 1) as nat),
                    );
                }
                i += 1;
            }
            assert(paths_view(out@) + Seq::<Seq<StepView>>::empty() =~= paths_view(out@));
        },
        _ => {
            assert(paths_view(out@) + Seq::<Seq<StepView>>::empty() =~= paths_view(out@));
        },
    }
}

/// The value at a path below a value: each step names a field of a
/// structure or a position in a list.
pub open spec fn node_at(v: Json, path: Seq<StepView>) -> Option<Json>
    decreases path.len(),
{
    if path.len() == 0 {
        Some(v)
    } else {
        match (path[0], v) {
            (StepView::Field(name), Json::Object(m, _)) => match field_named(m@, name, 0) {
                Some(c) => node_at(c, path.drop_first()),
                None => None,
            },
            (StepView::Index(i), Json::Array(a, _)) => if i < a@.len() {
                node_at(a@[i as int], path.drop_first())
            } else {
                None
            },
            _ => None,
        }
    }
}

/// The value of the first field with a name, from the position `i` on.
pub open spec fn field_named(fields: Seq<(String, Json)>, name: Seq<char>, i: int) -> Option<Json>
    decreases fields.len() - i,
{
    if i < 0 || i >= fields.len() {
        None
    } else if fields[i].0@ == name {
        Some(fields[i].1)
    } else {
        field_named(fields, name, i + 1)
    }
}

/// The text of a value that the user can copy: `NULL` for a missing value,
/// a text itself, and the JSON text with line ends for a structure or a list.
pub open spec fn copy_text(v: Json) -> Seq<char> {
    match v {
        Json::Null => "NULL"@,
        Json::Str(s, _) => s@,
        Json::Object(_, pretty) => pretty@,
        Json::Array(_, pretty) => pretty@,
        Json::Bool(b) => bool_text(b),
        Json::Number(n) => n@,
    }
}

/// The JSON text of a value, with line ends and spaces.
pub open spec fn json_text(v: Json) -> Seq<char> {
    match v {
        Json::Null => "null"@,
        Json::Bool(b) => bool_text(b),
        Json::Number(n) => n@,
        Json::Str(_, j) => j@,
        Json::Object(_, pretty) => pretty@,
        Json::Array(_, pretty) => pretty@,
    }
}

/// Finds the first field with a name.
fn find_field(m: &Vec<(String, Json)>, name: &str) -> (r: Option<usize>)
    ensures
        match r {
            Some(j) => j < m@.len() && field_named(m@, name@, 0) == Some(m@[j as int].1),
            None => field_named(m@, name@, 0) is None,
        },
{
    let mut j: usize = 0;
    while j < m.len()
        invariant
            j <= m@.len(),
            field_named(m@, name@, 0) == field_named(m@, name@, j as int),
        decreases m@.len() - j,
    {
        if crate::chars::same_str(m[j].0.as_str(), name) {
            return Some(j);
        }
        j += 1;
    }
    None
}

impl Tree {
    /// Opens each line that holds other values.
    pub fn expand_all(&mut self)
        requires
            old(self).wf(),
        ensures
            final(self).wf(),
            final(self).paths() == match old(self).root_value() {
                None => old(self).paths(),
                Some(root) => old(self).paths() + collect(root, Seq::empty(), 0).to_set(),
            },
            final(self).root_value() == old(self).root_value(),
            final(self).hides_empty() == old(self).hides_empty(),
            final(self).fault() == old(self).fault(),
    {
        let mut found: Vec<Vec<Step>> = Vec::new();
        match &self.root {
            None => {
                return;
            },
            Some(root) => {
                let top: Vec<Step> = Vec::new();
                assert(path_view(top@) =~= Seq::<StepView>::empty());
                collect_into(root, &top, 0, &mut found);
                assert(paths_view(found@) =~= collect(*root, Seq::empty(), 0));
            },
        }
        let ghost start = self.paths();
        let ghost all = paths_view(found@);
        let mut i: usize = 0;
        while i < found.len()
            invariant
                i <= found@.len(),
                self.wf(),
                all == paths_view(found@),
                self.paths() == start + all.take(i as int).to_set(),
                self.root_value() == old(self).root_value(),
                self.hides_empty() == old(self).hides_empty(),
                self.fault() == old(self).fault(),
            decreases found@.len() - i,
        {
            self.open_path(found[i].as_slice());
            assert(all.take(i + 1) =~= all.take(i as int).push(path_view(found@[i as int]@)));
            assert(all.take(i + 1).to_set() =~= all.take(i as int).to_set().insert(path_view(found@[i as int]@))) by {
                all.take(i as int).lemma_push_to_set_commute(path_view(found@[i as int]@));
            }
            assert(self.paths() =~= start + all.take(i + 1).to_set());
            i += 1;
        }
        assert(all.take(i as int) =~= all);
    }

    /// Gives the value at a path, as text that the user can copy.
    ///
    /// A structure or a list comes back as JSON with line ends and spaces, so
    /// the user can read it.
    pub fn value_at(&self, path: &[Step]) -> (r: Option<String>)
        ensures
            match self.root_value() {
                None => r is None,
                Some(root) => match node_at(root, path_view(path@)) {
                    None => r is None,
                    Some(v) => r matches Some(t) && t@ == copy_text(v),
                },
            },
    {
        let mut cur: &Json = match &self.root {
            None => return None,
            Some(root) => root,
        };
        let ghost pv = path_view(path@);
        let mut k: usize = 0;
        assert(pv.skip(0) =~= pv);
        while k < path.len()
            invariant
                k <= path@.len(),
                pv == path_view(path@),
                self.root_value() matches Some(root) && node_at(root, pv) == node_at(*cur, pv.skip(k as int)),
            decreases path@.len() - k,
        {
            let ghost rest = pv.skip(k as int);
            assert(rest[0] == step_view(path@[k as int]));
            assert(rest.drop_first() =~= pv.skip(k + 1));
            match (&path[k], cur) {
                (Step::Field(name), Json::Object(m, _)) => {
                    match find_field(m, name.as_str()) {
                        None => {
                            return None;
                        },
                        Some(j) => {
                            cur = &m[j].1;
                        },
                    }
                },
                (Step::Index(i), Json::Array(a, _)) => {
                    if *i >= a.len() {
                        return None;
                    }
                    cur = &a[*i];
                },
                _ => {
                    return None;
                },
            }
            k += 1;
        }
        assert(pv.skip(k as int).len() == 0);
        let text = match cur {
            Json::Null => String::from_str("NULL"),
            Json::Str(s, _) => s.clone(),
            Json::Object(_, pretty) => pretty.clone(),
            Json::Array(_, pretty) => pretty.clone(),
            Json::Bool(b) => String::from_str(if *b { "true" } else { "false" }),
            Json::Number(n) => n.clone(),
        };
        Some(text)
    }

    /// Gives the complete row as JSON, with line ends and spaces.
    pub fn as_json(&self) -> (r: Option<String>)
        ensures
            match self.root_value() {
                None => r is None,
                Some(root) => r matches Some(t) && t@ == json_text(root),
            },
    {
        match &self.root {
            None => None,
            Some(root) => Some(match root {
                Json::Null => String::from_str("null"),
                Json::Bool(b) => String::from_str(if *b { "true" } else { "false" }),
                Json::Number(n) => n.clone(),
                Json::Str(_, j) => j.clone(),
                Json::Object(_, pretty) => pretty.clone(),
                Json::Array(_, pretty) => pretty.clone(),
            }),
        }
    }
}

/// Each line of a value lies between the level of the value and the deepest
/// level.
proof fn lemma_walk_depth(
    hide_empty: bool,
    open: Set<Seq<StepView>>,
    needle: Seq<char>,
    step: StepView,
    v: Json,
    parent: Seq<StepView>,
    depth: nat,
)
    ensures
        forall|k: int|
            0 <= k < walk(hide_empty, open, needle, step, v, parent, depth).len() ==> depth <= (
            #[trigger] walk(hide_empty, open, needle, step, v, parent, depth)[k]).depth < MAX_DEPTH,
    decreases v, 0nat,
{
    let w = walk(hide_empty, open, needle, step, v, parent, depth);
    if depth < MAX_DEPTH && !(hide_empty && depth > 0 && v is Null) && matches(step, v, needle, depth) {
        let path = parent.push(step);
        let d = describe(v, hide_empty);
        let is_open = d.0.spec_opens() && (open.contains(path) || needle.len() > 0);
        let line = w[0];
        let children = if is_open {
            match v {
                Json::Object(m, _) => walk_fields(hide_empty, open, needle, m@, 0, path, depth + 1),
                Json::Array(a, _) => walk_items(hide_empty, open, needle, a@, 0, path, depth + 1),
                _ => Seq::empty(),
            }
        } else {
            Seq::empty()
        };
        if is_open {
            match v {
                Json::Object(m, _) => lemma_fields_depth(hide_empty, open, needle, m@, 0, path, depth + 1),
                Json::Array(a, _) => lemma_items_depth(hide_empty, open, needle, a@, 0, path, depth + 1),
                _ => {},
            }
        }
        assert forall|k: int| 0 <= k < w.len() implies depth <= (#[trigger] w[k]).depth < MAX_DEPTH by {
            if k > 0 {
                assert(w[k] == children[k - 1]);
            }
        }
    }
}

/// Each line of the fields from `i` on lies between their level and the
/// deepest level.
proof fn lemma_fields_depth(
    hide_empty: bool,
    open: Set<Seq<StepView>>,
    needle: Seq<char>,
    fields: Seq<(String, Json)>,
    i: int,
    parent: Seq<StepView>,
    depth: nat,
)
    ensures
        forall|k: int|
            0 <= k < walk_fields(hide_empty, open, needle, fields, i, parent, depth).len() ==> depth <= (
            #[trigger] walk_fields(hide_empty, open, needle, fields, i, parent, depth)[k]).depth < MAX_DEPTH,
    decreases fields, fields.len() - i,
{
    if 0 <= i < fields.len() {
        let a = walk(hide_empty, open, needle, StepView::Field(fields[i].0@), fields[i].1, parent, depth);
        let b = walk_fields(hide_empty, open, needle, fields, i + 1, parent, depth);
        lemma_walk_depth(hide_empty, open, needle, StepView::Field(fields[i].0@), fields[i].1, parent, depth);
        lemma_fields_depth(hide_empty, open, needle, fields, i + 1, parent, depth);
        let w = walk_fields(hide_empty, open, needle, fields, i, parent, depth);
        assert(w == a + b);
        assert forall|k: int| 0 <= k < w.len() implies depth <= (#[trigger] w[k]).depth < MAX_DEPTH by {
            if k < a.len() {
                assert(w[k] == a[k]);
            } else {
                assert(w[k] == b[k - a.len()]);
            }
        }
    }
}

/// Each line of the items from `i` on lies between their level and the
/// deepest level.
proof fn lemma_items_depth(
    hide_empty: bool,
    open: Set<Seq<StepView>>,
    needle: Seq<char>,
    items: Seq<Json>,
    i: int,
    parent: Seq<StepView>,
    depth: nat,
)
    ensures
        forall|k: int|
            0 <= k < walk_items(hide_empty, open, needle, items, i, parent, depth).len() ==> depth <= (
            #[trigger] walk_items(hide_empty, open, needle, items, i, parent, depth)[k]).depth < MAX_DEPTH,
    decreases items, items.len() - i,
{
    if 0 <= i < items.len() {
        let a = walk(hide_empty, open, needle, StepView::Index(i as nat), items[i], parent, depth);
        let b = walk_items(hide_empty, open, needle, items, i + 1, parent, depth);
        lemma_walk_depth(hide_empty, open, needle, StepView::Index(i as nat), items[i], parent, depth);
        lemma_items_depth(hide_empty, open, needle, items, i + 1, parent, depth);
        let w = walk_items(hide_empty, open, needle, items, i, parent, depth);
        assert(w == a + b);
        assert forall|k: int| 0 <= k < w.len() implies depth <= (#[trigger] w[k]).depth < MAX_DEPTH by {
            if k < a.len() {
                assert(w[k] == a[k]);
            } else {
                assert(w[k] == b[k - a.len()]);
            }
        }
    }
}

/// However deep a row is, and whatever lines are open, no line of the tree
/// goes past the deepest level: a value that points to itself cannot fill
/// the memory.
pub proof fn no_line_passes_the_deepest_level(t: Tree, needle: Seq<char>)
    ensures
        forall|k: int| 0 <= k < t.spec_lines(needle).len() ==> (#[trigger] t.spec_lines(needle)[k]).depth < MAX_DEPTH,
{
    match t.root_value() {
        None => {},
        Some(Json::Object(m, _)) => lemma_fields_depth(t.hides_empty(), t.paths(), needle, m@, 0, Seq::empty(), 0),
        Some(other) => lemma_walk_depth(t.hides_empty(), t.paths(), needle, StepView::Field("value"@), other, Seq::empty(), 0),
    }
}

} // verus!
