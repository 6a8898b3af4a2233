//! The filter builder: the overlay in which the user makes the conditions of
//! the filter from menus, one step after the other.
//!
//! The builder starts at the list of the conditions. A new condition goes
//! through three steps: the column, the operator, and the value (two values
//! for an operator such as `between`). A condition can also be typed as one
//! `WHERE` expression. The list of the conditions belongs to the program: a
//! key changes the state of the builder and gives a [`BuildAction`], which
//! says what the program does to that list.

use vstd::prelude::*;

use crate::app::Build;
use crate::chars::{text_of, trimmed, trimmed_chars};

use crate::commands::{fuzzy, fuzzy_match};
use crate::input::{handled, remembered, reset_to, Action, LineInput, LineState};
use crate::keys::{plain, KeyCode, KeyEvent, KeyModifiers};

verus! {

broadcast use vstd::string::group_string_axioms;

/// The code of the operator `=`, with which each new condition starts: the
/// operator that a user wants most of the time.
pub const EQUALS: u8 = 0;

/// What the builder knows of an operator: its code, and how many values it
/// takes.
#[derive(Clone, Copy, Debug, PartialEq, Eq, Structural)]
pub struct OpFacts {
    /// The code of the operator, which the program gives to it.
    pub code: u8,
    /// `true` when the operator takes a value (`=` does, `is null` does not).
    pub needs_value: bool,
    /// `true` when the operator takes a second value, as `between` does.
    pub needs_second: bool,
}

/// The operator `=`, which takes one value.
pub open spec fn equals() -> OpFacts {
    OpFacts { code: EQUALS, needs_value: true, needs_second: false }
}

/// A column as the builder sees it: its name, and the operators that its
/// type offers, in the order of the menu.
#[derive(Clone, Debug)]
pub struct BuildColumn {
    pub name: String,
    pub ops: Vec<OpFacts>,
}

/// A column as values.
pub struct ColumnView {
    pub name: Seq<char>,
    pub ops: Seq<OpFacts>,
}

/// The value of a column.
pub open spec fn column_view(c: BuildColumn) -> ColumnView {
    ColumnView { name: c.name@, ops: c.ops@ }
}

/// The condition that the builder makes now.
#[derive(Clone, Debug)]
pub struct Draft {
    /// The position of the column.
    pub col: usize,
    /// The operator.
    pub op: OpFacts,
    /// The first value.
    pub value: String,
    /// The second value, for an operator that takes two.
    pub value2: String,
    /// The position of the condition that the user edits, or `None` for a
    /// new condition.
    pub edit: Option<usize>,
}

/// A draft as values.
pub struct DraftView {
    pub col: nat,
    pub op: OpFacts,
    pub value: Seq<char>,
    pub value2: Seq<char>,
    pub edit: Option<nat>,
}

/// The value of a draft.
pub open spec fn draft_view(d: Draft) -> DraftView {
    DraftView {
        col: d.col as nat,
        op: d.op,
        value: d.value@,
        value2: d.value2@,
        edit: match d.edit {
            Some(i) => Some(i as nat),
            None => None,
        },
    }
}

/// The draft of a new condition: the first column, the operator `=`, and
/// no value.
pub open spec fn fresh_draft(edit: Option<nat>) -> DraftView {
    DraftView { col: 0, op: equals(), value: Seq::empty(), value2: Seq::empty(), edit }
}

impl Default for Draft {
    fn default() -> (r: Draft)
        ensures
            draft_view(r) == fresh_draft(None),
    {
        Draft { col: 0, op: OpFacts { code: EQUALS, needs_value: true, needs_second: false }, value: String::new(), value2: String::new(), edit: None }
    }
}

/// A condition that the builder puts in the list: an expression that the
/// user typed, or a column, an operator and its values.
#[derive(Debug)]
pub enum Term {
    Raw(String),
    Cmp { col: usize, op: u8, value: String, value2: String },
}

/// A condition as values.
pub enum TermView {
    Raw(Seq<char>),
    Cmp { col: nat, op: u8, value: Seq<char>, value2: Seq<char> },
}

/// The value of a condition.
pub open spec fn term_view(t: Term) -> TermView {
    match t {
        Term::Raw(s) => TermView::Raw(s@),
        Term::Cmp { col, op, value, value2 } => TermView::Cmp { col: col as nat, op, value: value@, value2: value2@ },
    }
}

/// The condition that the user starts to edit, as the program finds it in
/// its list.
#[derive(Debug)]
pub enum Editing {
    /// A new condition, or a position that the list does not hold.
    New,
    /// An expression that the user typed.
    Raw(String),
    /// A condition on a column: the position of the column (`None` when the
    /// columns no longer hold it), the operator and the values.
    Cmp { col: Option<usize>, op: OpFacts, value: String, value2: String },
}

/// What the program does after a key in the builder.
#[derive(Debug)]
pub enum BuildAction {
    /// Nothing more.
    Nothing,
    /// Leave the builder and put back the filter from the time before the
    /// builder opened.
    Cancel,
    /// Leave the builder and apply the list of the conditions.
    Apply,
    /// Start to edit the condition at this position: refer to
    /// [`FilterBuilder::begin`].
    Edit(usize),
    /// Remove the condition at this position.
    Remove(usize),
    /// Change the word (`AND` or `OR`) in front of the condition at this
    /// position.
    ToggleJoin(usize),
    /// Remove each condition.
    Clear,
    /// Put this condition in place of the one at this position.
    Replace(usize, Term),
    /// Put this condition at the end of the list.
    Push(Term),
    /// Complete the name of a column in the typed expression.
    Complete,
    /// Check this typed expression, and give the verdict to
    /// [`FilterBuilder::checked`].
    Check(String),
    /// The typed expression changed: check it, and give the verdict to
    /// [`FilterBuilder::set_fault`].
    Recheck,
}

/// An action as values.
pub enum BuildActionView {
    Nothing,
    Cancel,
    Apply,
    Edit(nat),
    Remove(nat),
    ToggleJoin(nat),
    Clear,
    Replace(nat, TermView),
    Push(TermView),
    Complete,
    Check(Seq<char>),
    Recheck,
}

/// The value of an action.
pub open spec fn build_action_view(a: BuildAction) -> BuildActionView {
    match a {
        BuildAction::Nothing => BuildActionView::Nothing,
        BuildAction::Cancel => BuildActionView::Cancel,
        BuildAction::Apply => BuildActionView::Apply,
        BuildAction::Edit(i) => BuildActionView::Edit(i as nat),
        BuildAction::Remove(i) => BuildActionView::Remove(i as nat),
        BuildAction::ToggleJoin(i) => BuildActionView::ToggleJoin(i as nat),
        BuildAction::Clear => BuildActionView::Clear,
        BuildAction::Replace(i, t) => BuildActionView::Replace(i as nat, term_view(t)),
        BuildAction::Push(t) => BuildActionView::Push(term_view(t)),
        BuildAction::Complete => BuildActionView::Complete,
        BuildAction::Check(s) => BuildActionView::Check(s@),
        BuildAction::Recheck => BuildActionView::Recheck,
    }
}

/// The state of the builder: the columns of the view, the step, the
/// selected condition, the selected entry of the menu of the step, the
/// draft, the editor of the text, and the fault of a typed expression.
#[derive(Debug)]
pub struct FilterBuilder {
    pub columns: Vec<BuildColumn>,
    pub step: Build,
    pub sel: usize,
    pub pick: usize,
    pub draft: Draft,
    pub input: LineInput,
    pub error: Option<String>,
}

/// The builder as values.
pub struct BuilderState {
    pub columns: Seq<ColumnView>,
    pub step: Build,
    pub sel: nat,
    pub pick: nat,
    pub draft: DraftView,
    pub input: LineState,
    pub error: Option<Seq<char>>,
}

impl View for FilterBuilder {
    type V = BuilderState;

    closed spec fn view(&self) -> BuilderState {
        BuilderState {
            columns: self.columns@.map_values(|c: BuildColumn| column_view(c)),
            step: self.step,
            sel: self.sel as nat,
            pick: self.pick as nat,
            draft: draft_view(self.draft),
            input: self.input@,
            error: match self.error {
                Some(e) => Some(e@),
                None => None,
            },
        }
    }
}

/// The rules of a state as values: at least one column, each with an
/// operator, and the draft on one of them.
pub open spec fn state_wf(s: BuilderState) -> bool {
    &&& 1 <= s.columns.len() < usize::MAX
    &&& s.draft.col < s.columns.len()
    &&& forall|c: int| 0 <= c < s.columns.len() ==> 1 <= #[trigger] s.columns[c].ops.len() < usize::MAX
}

/// The positions of the columns whose names the text `q` finds, among the
/// first `k` columns, in their order.
pub open spec fn shown_upto(q: Seq<char>, cols: Seq<ColumnView>, k: nat) -> Seq<nat>
    decreases k,
{
    if k == 0 {
        Seq::empty()
    } else {
        let before = shown_upto(q, cols, (k - 1) as nat);
        if fuzzy(q, cols[k - 1].name) {
            before.push((k - 1) as nat)
        } else {
            before
        }
    }
}

/// The columns that the list of the column step shows: those whose names
/// the text of the editor finds.
pub open spec fn shown(s: BuilderState) -> Seq<nat> {
    shown_upto(s.input.chars, s.columns, s.columns.len())
}

/// The operators of the draft column.
pub open spec fn ops_of(s: BuilderState) -> Seq<OpFacts> {
    s.columns[s.draft.col as int].ops
}

/// The first position at or after `i` of an operator with the code `code`.
pub open spec fn find_op(ops: Seq<OpFacts>, code: u8, i: nat) -> Option<nat>
    decreases ops.len() - i,
{
    if i >= ops.len() {
        None
    } else if ops[i as int].code == code {
        Some(i)
    } else {
        find_op(ops, code, i + 1)
    }
}

/// The position of an operator in a menu, or the first entry when the menu
/// does not hold it.
pub open spec fn op_position(ops: Seq<OpFacts>, code: u8) -> nat {
    match find_op(ops, code, 0) {
        Some(i) => i,
        None => 0,
    }
}

/// The largest position in a list of `n` entries, or 0 for an empty list.
pub open spec fn last_at(n: nat) -> nat {
    if n > 0 { (n - 1) as nat } else { 0 }
}

/// A selection one entry lower in a list of `n` entries, no lower than the
/// last one.
pub open spec fn down_one(sel: nat, n: nat) -> nat {
    if sel < last_at(n) { sel + 1 } else { last_at(n) }
}

/// A selection one entry higher, no higher than the first one.
pub open spec fn up_one(sel: nat) -> nat {
    if sel > 0 { (sel - 1) as nat } else { 0 }
}

/// The condition that the draft makes.
pub open spec fn draft_term(d: DraftView) -> TermView {
    TermView::Cmp { col: d.col, op: d.op.code, value: d.value, value2: d.value2 }
}

/// The builder after the draft went into the list of `n` conditions, and
/// what the program does: a draft that edits a condition of the list takes
/// its place, and each other draft goes to the end. The list step then
/// selects it, with an empty editor.
pub open spec fn committed(s: BuilderState, n: nat) -> (BuilderState, BuildActionView) {
    let t = BuilderState { input: reset_to(s.input, Seq::empty()), step: Build::List, ..s };
    match s.draft.edit {
        Some(i) if i < n => (BuilderState { sel: i, ..t }, BuildActionView::Replace(i, draft_term(s.draft))),
        _ => (BuilderState { sel: n, ..t }, BuildActionView::Push(draft_term(s.draft))),
    }
}

/// The builder after the user starts a condition: `edit` is the position of
/// the condition in the list (`None` for a new one), `cond` what the list
/// holds there, and `cursor` the column of the cursor of the grid.
///
/// A typed expression goes to the text step, with its text in the editor. A
/// condition on a column takes its column (the first one when the columns no
/// longer hold it), its operator and its values. A new condition starts on
/// the column of the cursor. The column step then shows each column and
/// selects the draft column.
pub open spec fn begun(s: BuilderState, edit: Option<nat>, cond: Editing, cursor: nat) -> BuilderState {
    match cond {
        Editing::Raw(text) => BuilderState {
            draft: fresh_draft(edit),
            input: reset_to(s.input, text@),
            error: None,
            step: Build::Raw,
            ..s
        },
        Editing::Cmp { col, op, value, value2 } => {
            let c: nat = match col {
                Some(c) => c as nat,
                None => 0,
            };
            BuilderState {
                draft: DraftView { col: c, op, value: value@, value2: value2@, edit },
                input: reset_to(s.input, Seq::empty()),
                step: Build::Column,
                pick: c,
                ..s
            }
        },
        Editing::New => {
            let c = if cursor < s.columns.len() - 1 { cursor } else { (s.columns.len() - 1) as nat };
            BuilderState {
                draft: DraftView { col: c, ..fresh_draft(edit) },
                input: reset_to(s.input, Seq::empty()),
                step: Build::Column,
                pick: c,
                ..s
            }
        },
    }
}

/// Gives `true` when the description of a condition fits the columns: a
/// column that it names is one of them.
pub open spec fn editing_fits(cond: Editing, n_cols: nat) -> bool {
    match cond {
        Editing::Cmp { col: Some(c), .. } => c < n_cols,
        _ => true,
    }
}


/// The builder after a key in the list of `n` conditions, and what the
/// program does. `cursor` is the column of the cursor of the grid.
///
/// Esc leaves the builder and Enter applies the list. The arrows (and `j`,
/// `k`) move the selection inside the list. `a` and `+` start a new
/// condition, `e` edits the selected one, `d` (or Delete, or Backspace)
/// removes it, `o` changes the word in front of it (the first condition has
/// none), `c` removes each condition, and `r` starts a condition typed as an
/// expression.
pub open spec fn list_key(s: BuilderState, key: KeyEvent, n: nat, cursor: nat) -> (BuilderState, BuildActionView) {
    match key.code {
        KeyCode::Esc => (s, BuildActionView::Cancel),
        KeyCode::Enter => (s, BuildActionView::Apply),
        KeyCode::Char('j') | KeyCode::Down => (BuilderState { sel: down_one(s.sel, n), ..s }, BuildActionView::Nothing),
        KeyCode::Char('k') | KeyCode::Up => (BuilderState { sel: up_one(s.sel), ..s }, BuildActionView::Nothing),
        KeyCode::Char('a') | KeyCode::Char('+') => (begun(s, None, Editing::New, cursor), BuildActionView::Nothing),
        KeyCode::Char('e') => (s, if s.sel < n { BuildActionView::Edit(s.sel) } else { BuildActionView::Nothing }),
        KeyCode::Char('d') | KeyCode::Delete | KeyCode::Backspace => if s.sel < n {
            let left = last_at((n - 1) as nat);
            (BuilderState { sel: if s.sel < left { s.sel } else { left }, ..s }, BuildActionView::Remove(s.sel))
        } else {
            (s, BuildActionView::Nothing)
        },
        KeyCode::Char('o') => (s, if 0 < s.sel < n { BuildActionView::ToggleJoin(s.sel) } else { BuildActionView::Nothing }),
        KeyCode::Char('c') => (BuilderState { sel: 0, ..s }, BuildActionView::Clear),
        KeyCode::Char('r') => (
            BuilderState {
                draft: fresh_draft(None),
                input: reset_to(s.input, Seq::empty()),
                error: None,
                step: Build::Raw,
                ..s
            },
            BuildActionView::Nothing,
        ),
        _ => (s, BuildActionView::Nothing),
    }
}

/// The builder after a key in the list of the columns.
///
/// Esc goes back to the list of the conditions, or leaves the builder when
/// the list is empty. The arrows move the selection inside the columns that
/// the text finds. Enter takes the selected column and goes to its
/// operators, on the operator of the draft when the column offers it, and
/// on the first one otherwise. Each other key goes to the editor, and a
/// change of the text selects the first column.
pub open spec fn column_key(s: BuilderState, key: KeyEvent, n: nat) -> (BuilderState, BuildActionView) {
    match key.code {
        KeyCode::Esc => if n == 0 {
            (s, BuildActionView::Cancel)
        } else {
            (BuilderState { input: reset_to(s.input, Seq::empty()), step: Build::List, ..s }, BuildActionView::Nothing)
        },
        KeyCode::Up => (BuilderState { pick: up_one(s.pick), ..s }, BuildActionView::Nothing),
        KeyCode::Down => (BuilderState { pick: down_one(s.pick, shown(s).len()), ..s }, BuildActionView::Nothing),
        KeyCode::Enter => if s.pick < shown(s).len() {
            let c = shown(s)[s.pick as int];
            let ops = s.columns[c as int].ops;
            let p = op_position(ops, s.draft.op.code);
            (
                BuilderState { draft: DraftView { col: c, op: ops[p as int], ..s.draft }, pick: p, step: Build::Op, ..s },
                BuildActionView::Nothing,
            )
        } else {
            (s, BuildActionView::Nothing)
        },
        _ => {
            let (f, act) = handled(s.input, key);
            (BuilderState { input: f, pick: if act == Action::Changed { 0 } else { s.pick }, ..s }, BuildActionView::Nothing)
        },
    }
}

/// The builder after a key in the list of the operators.
///
/// Esc goes back to the columns. The arrows (and `j`, `k`) move the
/// selection. Enter takes the selected operator: one that takes a value goes
/// to the value step, with the value of the draft in the editor, and each
/// other one puts the draft into the list.
pub open spec fn op_key(s: BuilderState, key: KeyEvent, n: nat) -> (BuilderState, BuildActionView) {
    let ops = ops_of(s);
    match key.code {
        KeyCode::Esc => (BuilderState { step: Build::Column, ..s }, BuildActionView::Nothing),
        KeyCode::Up | KeyCode::Char('k') => (BuilderState { pick: up_one(s.pick), ..s }, BuildActionView::Nothing),
        KeyCode::Down | KeyCode::Char('j') => (BuilderState { pick: down_one(s.pick, ops.len()), ..s }, BuildActionView::Nothing),
        KeyCode::Enter => {
            let at = if s.pick < last_at(ops.len()) { s.pick } else { last_at(ops.len()) };
            let op = ops[at as int];
            let t = BuilderState { draft: DraftView { op, ..s.draft }, ..s };
            if op.needs_value {
                (BuilderState { input: reset_to(t.input, t.draft.value), step: Build::Value, ..t }, BuildActionView::Nothing)
            } else {
                committed(t, n)
            }
        },
        _ => (s, BuildActionView::Nothing),
    }
}

/// The builder after a key in a value step.
///
/// The key goes to the editor. Esc goes back one step: from the second value
/// to the first one, and from the first value to the operators. Enter keeps
/// the text as the value; after the first value of an operator that takes
/// two, the second value follows, and otherwise the draft goes into the list.
pub open spec fn value_key(s: BuilderState, key: KeyEvent, n: nat) -> (BuilderState, BuildActionView) {
    let (f, act) = handled(s.input, key);
    let t = BuilderState { input: f, ..s };
    match act {
        Action::Cancel => if s.step == Build::Value2 {
            (BuilderState { input: reset_to(f, s.draft.value), step: Build::Value, ..t }, BuildActionView::Nothing)
        } else {
            (BuilderState { step: Build::Op, ..t }, BuildActionView::Nothing)
        },
        Action::Submit => if s.step == Build::Value {
            let d = DraftView { value: f.chars, ..s.draft };
            if d.op.needs_second {
                (BuilderState { draft: d, input: reset_to(f, d.value2), step: Build::Value2, ..t }, BuildActionView::Nothing)
            } else {
                committed(BuilderState { draft: d, ..t }, n)
            }
        } else {
            committed(BuilderState { draft: DraftView { value2: f.chars, ..s.draft }, ..t }, n)
        },
        _ => (t, BuildActionView::Nothing),
    }
}

/// The builder after a key in the step that takes a `WHERE` expression.
///
/// Tab, and the arrow to the right when a completion waits at the end of the
/// line (`has_ghost`), complete the name of a column. Each other key goes to
/// the editor. Esc goes back to the list, and leaves the builder when the
/// list is empty. Enter on a blank line removes the condition that the user
/// edits; Enter on an expression asks the program to check it. A change of
/// the text asks the program to check it again.
pub open spec fn raw_key(s: BuilderState, key: KeyEvent, n: nat, has_ghost: bool) -> (BuilderState, BuildActionView) {
    if key.code == KeyCode::Tab || (key.code == KeyCode::Right && plain(key) && has_ghost) {
        (s, BuildActionView::Complete)
    } else {
        let (f, act) = handled(s.input, key);
        let t = BuilderState { input: f, ..s };
        match act {
            Action::Cancel => (
                BuilderState { error: None, input: reset_to(f, Seq::empty()), step: Build::List, ..t },
                if n == 0 { BuildActionView::Cancel } else { BuildActionView::Nothing },
            ),
            Action::Submit => if trimmed(f.chars).len() == 0 {
                let removes = match s.draft.edit {
                    Some(i) => i < n,
                    None => false,
                };
                let left: nat = if removes { (n - 1) as nat } else { n };
                (
                    BuilderState {
                        sel: if s.sel < last_at(left) { s.sel } else { last_at(left) },
                        error: None,
                        input: reset_to(f, Seq::empty()),
                        step: Build::List,
                        ..t
                    },
                    if removes { BuildActionView::Remove(s.draft.edit->0) } else { BuildActionView::Nothing },
                )
            } else {
                (t, BuildActionView::Check(trimmed(f.chars)))
            },
            Action::Changed => (t, BuildActionView::Recheck),
            Action::Ignored => (t, BuildActionView::Nothing),
        }
    }
}

/// The builder after a key, and what the program does: the rule of the
/// step that the builder is at.
pub open spec fn build_key(s: BuilderState, key: KeyEvent, n: nat, cursor: nat, has_ghost: bool) -> (BuilderState, BuildActionView) {
    match s.step {
        Build::List => list_key(s, key, n, cursor),
        Build::Column => column_key(s, key, n),
        Build::Op => op_key(s, key, n),
        Build::Value | Build::Value2 => value_key(s, key, n),
        Build::Raw => raw_key(s, key, n, has_ghost),
    }
}

/// The builder after the program checked the expression `text`, and what
/// the program does.
///
/// An expression that the check refuses stays in the editor, with the fault
/// of the check. An expression that it accepts goes into the history of the
/// editor, takes the place of the condition that the user edits or goes to
/// the end of the list, and the builder goes back to the list.
pub open spec fn checked_state(s: BuilderState, n: nat, text: Seq<char>, fault: Option<Seq<char>>) -> (BuilderState, BuildActionView) {
    match fault {
        Some(e) => (BuilderState { error: Some(e), ..s }, BuildActionView::Nothing),
        None => {
            let kept = LineState { history: remembered(s.input.history, s.input.chars), ..s.input };
            let replaces = match s.draft.edit {
                Some(i) => i < n,
                None => false,
            };
            let now: nat = if replaces { n } else { n + 1 };
            (
                BuilderState {
                    sel: if s.sel < last_at(now) { s.sel } else { last_at(now) },
                    error: None,
                    input: reset_to(kept, Seq::empty()),
                    step: Build::List,
                    ..s
                },
                if replaces {
                    BuildActionView::Replace(s.draft.edit->0, TermView::Raw(text))
                } else {
                    BuildActionView::Push(TermView::Raw(text))
                },
            )
        },
    }
}

/// The builder after a click on the entry `at` of the list of its step,
/// whether the screen changed, and what the program does.
///
/// A double click does what the key `e` does in the list of the conditions
/// (Enter would apply the filter), and what Enter does in the other lists. A
/// click on an entry selects it. A value step and the text step hold no list.
pub open spec fn build_click(s: BuilderState, at: nat, double: bool, n: nat, cursor: nat) -> (BuilderState, bool, BuildActionView) {
    let key = |code: KeyCode| KeyEvent { code, modifiers: KeyModifiers::spec_none() };
    match s.step {
        Build::List => if double {
            let (t, a) = list_key(s, key(KeyCode::Char('e')), n, cursor);
            (t, true, a)
        } else if at >= n {
            (s, false, BuildActionView::Nothing)
        } else {
            (BuilderState { sel: at, ..s }, true, BuildActionView::Nothing)
        },
        Build::Column => if double {
            let (t, a) = column_key(s, key(KeyCode::Enter), n);
            (t, true, a)
        } else if at >= shown(s).len() {
            (s, false, BuildActionView::Nothing)
        } else {
            (BuilderState { pick: at, ..s }, true, BuildActionView::Nothing)
        },
        Build::Op => if double {
            let (t, a) = op_key(s, key(KeyCode::Enter), n);
            (t, true, a)
        } else if at >= ops_of(s).len() {
            (s, false, BuildActionView::Nothing)
        } else {
            (BuilderState { pick: at, ..s }, true, BuildActionView::Nothing)
        },
        _ => (s, false, BuildActionView::Nothing),
    }
}

/// The builder after a turn of the wheel: in a list, the selection moves by
/// [`WHEEL_ROWS`](crate::app::WHEEL_ROWS) entries, as that many presses of an
/// arrow do. A value step and the text step hold no list.
pub open spec fn build_wheel(s: BuilderState, down: bool, n: nat) -> BuilderState {
    let far = |at: nat, len: nat|
        if down {
            if at + 3 <= last_at(len) { at + 3 } else { last_at(len) }
        } else if at >= 3 {
            (at - 3) as nat
        } else {
            0nat
        };
    match s.step {
        Build::List => BuilderState { sel: far(s.sel, n), ..s },
        Build::Column => BuilderState { pick: far(s.pick, shown(s).len()), ..s },
        Build::Op => BuilderState { pick: far(s.pick, ops_of(s).len()), ..s },
        _ => s,
    }
}

impl FilterBuilder {
    /// The rules that each state keeps: the rules of [`state_wf`], and a
    /// well-formed editor.
    pub closed spec fn wf(&self) -> bool {
        &&& state_wf(self@)
        &&& self.input.wf()
    }

    /// Opens the builder on the columns of the view, with the editor of the
    /// prompt, when the list of the program holds `n` conditions and the
    /// cursor of the grid is on the column `cursor`.
    ///
    /// With no column there is nothing to filter on, and the builder gives
    /// back the editor with a message. Otherwise it selects the first
    /// condition, and with no condition it goes straight to a new one: an
    /// empty list would be an empty box.
    pub fn open(columns: Vec<BuildColumn>, input: LineInput, n: usize, cursor: usize) -> (r: Result<FilterBuilder, (LineInput, &'static str)>)
        requires
            input.wf(),
            columns@.len() < usize::MAX,
            forall|c: int| 0 <= c < columns@.len() ==> 1 <= #[trigger] columns@[c].ops@.len() < usize::MAX,
        ensures
            columns@.len() == 0 <==> r is Err,
            match r {
                Ok(b) => {
                    let s = BuilderState {
                        columns: columns@.map_values(|c: BuildColumn| column_view(c)),
                        step: Build::List,
                        sel: 0,
                        pick: 0,
                        draft: fresh_draft(None),
                        input: input@,
                        error: None,
                    };
                    &&& b.wf()
                    &&& b@ == if n == 0 { begun(s, None, Editing::New, cursor as nat) } else { s }
                },
                Err((back, m)) => back@ == input@ && back.wf() && m@ == "no columns to filter on"@,
            },
    {
        if columns.len() == 0 {
            return Err((input, "no columns to filter on"));
        }
        let mut b = FilterBuilder {
            columns,
            step: Build::List,
            sel: 0,
            pick: 0,
            draft: Draft::default(),
            input,
            error: None,
        };
        proof {
            assert forall|c: int| 0 <= c < b@.columns.len() implies 1 <= #[trigger] b@.columns[c].ops.len() < usize::MAX by {
                assert(b@.columns[c] == column_view(b.columns@[c]));
            }
        }
        if n == 0 {
            b.begin(None, Editing::New, cursor);
        }
        Ok(b)
    }

    /// Starts a condition: refer to [`begun`].
    pub fn begin(&mut self, edit: Option<usize>, cond: Editing, cursor: usize)
        requires
            old(self).wf(),
            editing_fits(cond, old(self)@.columns.len()),
        ensures
            final(self).wf(),
            final(self)@ == begun(
                old(self)@,
                match edit {
                    Some(i) => Some(i as nat),
                    None => None,
                },
                cond,
                cursor as nat,
            ),
    {
        match cond {
            Editing::Raw(text) => {
                self.draft = Draft { edit, ..Draft::default() };
                self.input.set(text.as_str());
                self.error = None;
                self.step = Build::Raw;
            },
            Editing::Cmp { col, op, value, value2 } => {
                let c = match col {
                    Some(c) => c,
                    None => 0,
                };
                self.draft = Draft { col: c, op, value, value2, edit };
                self.input.clear();
                self.step = Build::Column;
                self.pick = c;
            },
            Editing::New => {
                let last = self.columns.len() - 1;
                let c = if cursor < last { cursor } else { last };
                assert(old(self)@.columns.len() == self.columns@.len());
                self.draft = Draft { col: c, edit, ..Draft::default() };
                self.input.clear();
                self.step = Build::Column;
                self.pick = c;
            },
        }
    }

    /// Gives the positions of the columns that the list of the column step
    /// shows: refer to [`shown`].
    pub fn build_columns(&self) -> (r: Vec<usize>)
        requires
            self.wf(),
        ensures
            r@.map_values(|i: usize| i as nat) == shown(self@),
            forall|k: int| 0 <= k < r@.len() ==> r@[k] < self@.columns.len(),
    {
        let q = self.input.text();
        let mut out: Vec<usize> = Vec::new();
        let mut i: usize = 0;
        while i < self.columns.len()
            invariant
                i <= self.columns@.len(),
                self.wf(),
                q@ == self@.input.chars,
                out@.map_values(|x: usize| x as nat) == shown_upto(q@, self@.columns, i as nat),
                forall|k: int| 0 <= k < out@.len() ==> out@[k] < i,
            decreases self.columns@.len() - i,
        {
            let hit = fuzzy_match(q.as_str(), self.columns[i].name.as_str());
            proof {
                assert(self@.columns[i as int] == column_view(self.columns@[i as int]));
            }
            if hit {
                let ghost before = out@;
                out.push(i);
                proof {
                    assert(out@.map_values(|x: usize| x as nat) =~= before.map_values(|x: usize| x as nat).push(i as nat));
                }
            }
            i += 1;
        }
        out
    }

    /// Gives the operators of the draft column, in the order of the menu.
    pub fn build_ops(&self) -> (r: &Vec<OpFacts>)
        requires
            self.wf(),
        ensures
            r@ == ops_of(self@),
    {
        proof {
            assert(self@.columns[self.draft.col as int] == column_view(self.columns@[self.draft.col as int]));
        }
        &self.columns[self.draft.col].ops
    }

    /// Applies one key, when the list of the program holds `n` conditions,
    /// the cursor of the grid is on the column `cursor`, and `has_ghost` says
    /// whether a completion waits at the end of the line: refer to
    /// [`build_key`].
    pub fn on_key(&mut self, key: &KeyEvent, n: usize, cursor: usize, has_ghost: bool) -> (r: BuildAction)
        requires
            old(self).wf(),
        ensures
            final(self).wf(),
            (final(self)@, build_action_view(r)) == build_key(old(self)@, *key, n as nat, cursor as nat, has_ghost),
    {
        match self.step {
            Build::List => self.list_key(key, n, cursor),
            Build::Column => self.column_key(key, n),
            Build::Op => self.op_key(key, n),
            Build::Value | Build::Value2 => self.value_key(key, n),
            Build::Raw => self.raw_key(key, n, has_ghost),
        }
    }

    /// A key in the list of the conditions: refer to [`list_key`].
    fn list_key(&mut self, key: &KeyEvent, n: usize, cursor: usize) -> (r: BuildAction)
        requires
            old(self).wf(),
        ensures
            final(self).wf(),
            (final(self)@, build_action_view(r)) == list_key(old(self)@, *key, n as nat, cursor as nat),
    {
        let last = if n > 0 { n - 1 } else { 0 };
        match key.code {
            KeyCode::Esc => BuildAction::Cancel,
            KeyCode::Enter => BuildAction::Apply,
            KeyCode::Char('j') | KeyCode::Down => {
                self.sel = if self.sel < last { self.sel + 1 } else { last };
                BuildAction::Nothing
            },
            KeyCode::Char('k') | KeyCode::Up => {
                self.sel = if self.sel > 0 { self.sel - 1 } else { 0 };
                BuildAction::Nothing
            },
            KeyCode::Char('a') | KeyCode::Char('+') => {
                self.begin(None, Editing::New, cursor);
                BuildAction::Nothing
            },
            KeyCode::Char('e') => {
                if self.sel < n {
                    BuildAction::Edit(self.sel)
                } else {
                    BuildAction::Nothing
                }
            },
            KeyCode::Char('d') | KeyCode::Delete | KeyCode::Backspace => {
                if self.sel < n {
                    let at = self.sel;
                    let left = if n - 1 > 0 { n - 2 } else { 0 };
                    self.sel = if self.sel < left { self.sel } else { left };
                    BuildAction::Remove(at)
                } else {
                    BuildAction::Nothing
                }
            },
            KeyCode::Char('o') => {
                if 0 < self.sel && self.sel < n {
                    BuildAction::ToggleJoin(self.sel)
                } else {
                    BuildAction::Nothing
                }
            },
            KeyCode::Char('c') => {
                self.sel = 0;
                BuildAction::Clear
            },
            KeyCode::Char('r') => {
                self.draft = Draft::default();
                self.input.clear();
                self.error = None;
                self.step = Build::Raw;
                BuildAction::Nothing
            },
            _ => BuildAction::Nothing,
        }
    }

    /// Gives the position of the operator with the code `code` in a menu, or
    /// the first entry when the menu does not hold it.
    fn position_of(ops: &Vec<OpFacts>, code: u8) -> (r: usize)
        requires
            ops@.len() >= 1,
        ensures
            r as nat == op_position(ops@, code),
            r < ops@.len(),
    {
        let mut i: usize = 0;
        while i < ops.len()
            invariant
                i <= ops@.len(),
                find_op(ops@, code, 0) == find_op(ops@, code, i as nat),
            decreases ops@.len() - i,
        {
            if ops[i].code == code {
                return i;
            }
            i += 1;
        }
        0
    }

    /// A key in the list of the columns: refer to [`column_key`].
    fn column_key(&mut self, key: &KeyEvent, n: usize) -> (r: BuildAction)
        requires
            old(self).wf(),
        ensures
            final(self).wf(),
            (final(self)@, build_action_view(r)) == column_key(old(self)@, *key, n as nat),
    {
        match key.code {
            KeyCode::Esc => {
                if n == 0 {
                    BuildAction::Cancel
                } else {
                    self.input.clear();
                    self.step = Build::List;
                    BuildAction::Nothing
                }
            },
            KeyCode::Up => {
                self.pick = if self.pick > 0 { self.pick - 1 } else { 0 };
                BuildAction::Nothing
            },
            KeyCode::Down => {
                let cols = self.build_columns();
                let last = if cols.len() > 0 { cols.len() - 1 } else { 0 };
                proof {
                    assert(cols@.len() == shown(self@).len()) by {
                        assert(cols@.map_values(|i: usize| i as nat).len() == cols@.len());
                    }
                }
                self.pick = if self.pick < last { self.pick + 1 } else { last };
                BuildAction::Nothing
            },
            KeyCode::Enter => {
                let cols = self.build_columns();
                proof {
                    assert(cols@.map_values(|i: usize| i as nat).len() == cols@.len());
                }
                if self.pick < cols.len() {
                    let c = cols[self.pick];
                    proof {
                        assert(shown(self@)[self.pick as int] == c as nat) by {
                            assert(cols@.map_values(|i: usize| i as nat)[self.pick as int] == c as nat);
                        }
                        assert(self@.columns[c as int] == column_view(self.columns@[c as int]));
                        assert(1 <= self@.columns[c as int].ops.len());
                    }
                    let p = Self::position_of(&self.columns[c].ops, self.draft.op.code);
                    self.draft.col = c;
                    self.draft.op = self.columns[c].ops[p];
                    self.pick = p;
                    self.step = Build::Op;
                }
                BuildAction::Nothing
            },
            _ => {
                let act = self.input.handle(key);
                if act == Action::Changed {
                    self.pick = 0;
                }
                BuildAction::Nothing
            },
        }
    }

    /// A key in the list of the operators: refer to [`op_key`].
    fn op_key(&mut self, key: &KeyEvent, n: usize) -> (r: BuildAction)
        requires
            old(self).wf(),
        ensures
            final(self).wf(),
            (final(self)@, build_action_view(r)) == op_key(old(self)@, *key, n as nat),
    {
        proof {
            assert(self@.columns[self.draft.col as int] == column_view(self.columns@[self.draft.col as int]));
        }
        let len = self.columns[self.draft.col].ops.len();
        let last = if len > 0 { len - 1 } else { 0 };
        match key.code {
            KeyCode::Esc => {
                self.step = Build::Column;
                BuildAction::Nothing
            },
            KeyCode::Up | KeyCode::Char('k') => {
                self.pick = if self.pick > 0 { self.pick - 1 } else { 0 };
                BuildAction::Nothing
            },
            KeyCode::Down | KeyCode::Char('j') => {
                self.pick = if self.pick < last { self.pick + 1 } else { last };
                BuildAction::Nothing
            },
            KeyCode::Enter => {
                let at = if self.pick < last { self.pick } else { last };
                let op = self.columns[self.draft.col].ops[at];
                self.draft.op = op;
                if op.needs_value {
                    self.input.set(self.draft.value.as_str());
                    self.step = Build::Value;
                    BuildAction::Nothing
                } else {
                    self.commit(n)
                }
            },
            _ => BuildAction::Nothing,
        }
    }

    /// A key in a value step: refer to [`value_key`].
    fn value_key(&mut self, key: &KeyEvent, n: usize) -> (r: BuildAction)
        requires
            old(self).wf(),
        ensures
            final(self).wf(),
            (final(self)@, build_action_view(r)) == value_key(old(self)@, *key, n as nat),
    {
        let act = self.input.handle(key);
        match act {
            Action::Cancel => {
                if self.step == Build::Value2 {
                    self.input.set(self.draft.value.as_str());
                    self.step = Build::Value;
                } else {
                    self.step = Build::Op;
                }
                BuildAction::Nothing
            },
            Action::Submit => {
                if self.step == Build::Value {
                    self.draft.value = self.input.text();
                    if self.draft.op.needs_second {
                        self.input.set(self.draft.value2.as_str());
                        self.step = Build::Value2;
                        return BuildAction::Nothing;
                    }
                } else {
                    self.draft.value2 = self.input.text();
                }
                self.commit(n)
            },
            _ => BuildAction::Nothing,
        }
    }

    /// A key in the step that takes a `WHERE` expression: refer to
    /// [`raw_key`].
    fn raw_key(&mut self, key: &KeyEvent, n: usize, has_ghost: bool) -> (r: BuildAction)
        requires
            old(self).wf(),
        ensures
            final(self).wf(),
            (final(self)@, build_action_view(r)) == raw_key(old(self)@, *key, n as nat, has_ghost),
    {
        if key.code == KeyCode::Tab || (key.code == KeyCode::Right && !key.modifiers.control && !key.modifiers.alt
            && has_ghost) {
            return BuildAction::Complete;
        }
        let act = self.input.handle(key);
        match act {
            Action::Cancel => {
                self.error = None;
                self.input.clear();
                self.step = Build::List;
                if n == 0 {
                    BuildAction::Cancel
                } else {
                    BuildAction::Nothing
                }
            },
            Action::Submit => {
                let text = self.input.text();
                let t = trimmed_chars(text.as_str());
                if t.len() == 0 {
                    let removes = match self.draft.edit {
                        Some(i) => i < n,
                        None => false,
                    };
                    let left = if removes { n - 1 } else { n };
                    let last = if left > 0 { left - 1 } else { 0 };
                    self.sel = if self.sel < last { self.sel } else { last };
                    self.error = None;
                    self.input.clear();
                    self.step = Build::List;
                    if removes {
                        match self.draft.edit {
                            Some(i) => BuildAction::Remove(i),
                            None => BuildAction::Nothing,
                        }
                    } else {
                        BuildAction::Nothing
                    }
                } else {
                    BuildAction::Check(text_of(t.as_slice()))
                }
            },
            Action::Changed => BuildAction::Recheck,
            Action::Ignored => BuildAction::Nothing,
        }
    }

    /// Takes the verdict of the program on the expression `text`, which the
    /// list of `n` conditions may take: refer to [`checked_state`]. An
    /// accepted expression also gives a copy of the editor, with the
    /// expression in its history, for the filter prompt.
    pub fn checked(&mut self, n: usize, text: String, verdict: Result<(), String>) -> (r: (BuildAction, Option<LineInput>))
        requires
            old(self).wf(),
            n < usize::MAX,
        ensures
            final(self).wf(),
            (final(self)@, build_action_view(r.0)) == checked_state(
                old(self)@,
                n as nat,
                text@,
                match verdict {
                    Ok(_) => None,
                    Err(e) => Some(e@),
                },
            ),
            match r.1 {
                Some(kept) => verdict is Ok && kept.wf() && kept@ == (LineState {
                    history: remembered(old(self)@.input.history, old(self)@.input.chars),
                    ..old(self)@.input
                }),
                None => verdict is Err,
            },
    {
        match verdict {
            Err(e) => {
                self.error = Some(e);
                (BuildAction::Nothing, None)
            },
            Ok(()) => {
                self.input.remember();
                let kept = self.input.duplicate();
                let replaces = match self.draft.edit {
                    Some(i) => i < n,
                    None => false,
                };
                let now = if replaces { n } else { n + 1 };
                let last = if now > 0 { now - 1 } else { 0 };
                self.sel = if self.sel < last { self.sel } else { last };
                self.error = None;
                self.input.clear();
                self.step = Build::List;
                let act = match self.draft.edit {
                    Some(i) if i < n => BuildAction::Replace(i, Term::Raw(text)),
                    _ => BuildAction::Push(Term::Raw(text)),
                };
                (act, Some(kept))
            },
        }
    }

    /// Takes the verdict of the program on the text of the editor after a
    /// change: the fault of a refused text, and no fault for an empty line.
    pub fn set_fault(&mut self, verdict: Result<(), String>)
        requires
            old(self).wf(),
        ensures
            final(self).wf(),
            final(self)@ == (BuilderState {
                error: if old(self)@.input.chars.len() == 0 {
                    None
                } else {
                    match verdict {
                        Ok(_) => None,
                        Err(e) => Some(e@),
                    }
                },
                ..old(self)@
            }),
    {
        self.error = if self.input.is_empty() {
            None
        } else {
            match verdict {
                Ok(()) => None,
                Err(e) => Some(e),
            }
        };
    }

    /// Applies a click on the entry `at` of the list of the step: refer to
    /// [`build_click`]. Gives whether the screen changed, and what the
    /// program does.
    pub fn click(&mut self, at: usize, double: bool, n: usize, cursor: usize) -> (r: (bool, BuildAction))
        requires
            old(self).wf(),
        ensures
            final(self).wf(),
            (final(self)@, r.0, build_action_view(r.1)) == build_click(old(self)@, at as nat, double, n as nat, cursor as nat),
    {
        let none = KeyModifiers::none();
        match self.step {
            Build::List => {
                if double {
                    let a = self.list_key(&KeyEvent::new(KeyCode::Char('e'), none), n, cursor);
                    return (true, a);
                }
                if at >= n {
                    return (false, BuildAction::Nothing);
                }
                self.sel = at;
                (true, BuildAction::Nothing)
            },
            Build::Column => {
                if double {
                    let a = self.column_key(&KeyEvent::new(KeyCode::Enter, none), n);
                    return (true, a);
                }
                let cols = self.build_columns();
                proof {
                    assert(cols@.map_values(|i: usize| i as nat).len() == cols@.len());
                }
                if at >= cols.len() {
                    return (false, BuildAction::Nothing);
                }
                self.pick = at;
                (true, BuildAction::Nothing)
            },
            Build::Op => {
                if double {
                    let a = self.op_key(&KeyEvent::new(KeyCode::Enter, none), n);
                    return (true, a);
                }
                if at >= self.build_ops().len() {
                    return (false, BuildAction::Nothing);
                }
                self.pick = at;
                (true, BuildAction::Nothing)
            },
            _ => (false, BuildAction::Nothing),
        }
    }

    /// Applies a turn of the wheel: refer to [`build_wheel`].
    pub fn wheel(&mut self, down: bool, n: usize)
        requires
            old(self).wf(),
        ensures
            final(self).wf(),
            final(self)@ == build_wheel(old(self)@, down, n as nat),
    {
        let len = match self.step {
            Build::List => n,
            Build::Column => {
                let cols = self.build_columns();
                proof {
                    assert(cols@.map_values(|i: usize| i as nat).len() == cols@.len());
                }
                cols.len()
            },
            Build::Op => self.build_ops().len(),
            _ => return,
        };
        let last = if len > 0 { len - 1 } else { 0 };
        let at = if self.step == Build::List { self.sel } else { self.pick };
        let to = if down {
            if at <= last && last - at >= 3 { at + 3 } else { last }
        } else if at >= 3 {
            at - 3
        } else {
            0
        };
        if self.step == Build::List {
            self.sel = to;
        } else {
            self.pick = to;
        }
    }

    /// Puts the draft into the list of `n` conditions: refer to
    /// [`committed`].
    fn commit(&mut self, n: usize) -> (r: BuildAction)
        requires
            old(self).wf(),
        ensures
            final(self).wf(),
            (final(self)@, build_action_view(r)) == committed(old(self)@, n as nat),
    {
        let term = Term::Cmp {
            col: self.draft.col,
            op: self.draft.op.code,
            value: self.draft.value.clone(),
            value2: self.draft.value2.clone(),
        };
        self.input.clear();
        self.step = Build::List;
        match self.draft.edit {
            Some(i) if i < n => {
                self.sel = i;
                BuildAction::Replace(i, term)
            },
            _ => {
                self.sel = n;
                BuildAction::Push(term)
            },
        }
    }
}

} // verus!

verus! {

/// The list of the column step, with no text typed, shows each column in
/// its order.
pub proof fn lemma_all_shown(cols: Seq<ColumnView>, k: nat)
    requires
        k <= cols.len(),
    ensures
        shown_upto(Seq::empty(), cols, k).len() == k,
        forall|i: int| 0 <= i < k ==> #[trigger] shown_upto(Seq::empty(), cols, k)[i] == i,
    decreases k,
{
    if k > 0 {
        lemma_all_shown(cols, (k - 1) as nat);
    }
}

/// A new condition offers its operators starting at `=`: after `a` in the
/// list and Enter on the column that the builder selects, the menu of the
/// operators selects `=` whenever the column offers it.
pub proof fn a_new_condition_starts_on_equals(s: BuilderState, n: nat, cursor: nat)
    requires
        state_wf(s),
        s.step == Build::List,
    ensures
        ({
            let (t, _) = list_key(s, KeyEvent { code: KeyCode::Char('a'), modifiers: KeyModifiers::spec_none() }, n, cursor);
            let (u, _) = column_key(t, KeyEvent { code: KeyCode::Enter, modifiers: KeyModifiers::spec_none() }, n);
            &&& u.step == Build::Op
            &&& u.draft.col == t.draft.col
            &&& (exists|i: int| 0 <= i < ops_of(u).len() && #[trigger] ops_of(u)[i].code == EQUALS) ==> {
                &&& ops_of(u)[u.pick as int].code == EQUALS
                &&& u.draft.op == ops_of(u)[u.pick as int]
            }
        }),
{
    let (t, _) = list_key(s, KeyEvent { code: KeyCode::Char('a'), modifiers: KeyModifiers::spec_none() }, n, cursor);
    lemma_all_shown(t.columns, t.columns.len());
    assert(t.input.chars == Seq::<char>::empty());
    assert(shown(t)[t.pick as int] == t.pick);
    let ops = t.columns[t.draft.col as int].ops;
    if exists|i: int| 0 <= i < ops.len() && #[trigger] ops[i].code == EQUALS {
        let w = choose|i: int| 0 <= i < ops.len() && #[trigger] ops[i].code == EQUALS;
        lemma_find_op_finds(ops, EQUALS, 0, w as nat);
    }
}

/// The search of an operator from a position finds one with the code,
/// whenever one stands at or after that position.
pub proof fn lemma_find_op_finds(ops: Seq<OpFacts>, code: u8, i: nat, w: nat)
    requires
        i <= w < ops.len(),
        ops[w as int].code == code,
    ensures
        find_op(ops, code, i) matches Some(p) && p < ops.len() && ops[p as int].code == code,
    decreases w - i,
{
    if ops[i as int].code != code {
        lemma_find_op_finds(ops, code, i + 1, w);
    }
}

/// The number of conditions after the program does what an action says to
/// a list of `n` conditions.
pub open spec fn count_after(n: nat, a: BuildActionView) -> nat {
    match a {
        BuildActionView::Remove(_) => if n > 0 { (n - 1) as nat } else { 0 },
        BuildActionView::Clear => 0,
        BuildActionView::Push(_) => n + 1,
        _ => n,
    }
}

/// The selection of the list of the conditions stays inside the list: a key
/// in the list leaves the builder at the list with a selection that the list
/// after the action holds, or with the first position of an empty list.
pub proof fn the_selection_stays_in_the_list(s: BuilderState, key: KeyEvent, n: nat, cursor: nat, has_ghost: bool)
    requires
        state_wf(s),
        s.step == Build::List,
        s.sel < n,
    ensures
        ({
            let (t, a) = build_key(s, key, n, cursor, has_ghost);
            t.step == Build::List ==> t.sel < count_after(n, a) || (t.sel == 0 && count_after(n, a) == 0)
        }),
{
}

/// A condition that the menus make is selected in the list: when a key puts
/// the draft in the place of a condition, the list selects that position,
/// and when it puts the draft at the end, the list selects the new last
/// condition. The builder is then at the list.
pub proof fn a_built_condition_is_selected(s: BuilderState, key: KeyEvent, n: nat, cursor: nat, has_ghost: bool)
    requires
        state_wf(s),
    ensures
        ({
            let (t, a) = build_key(s, key, n, cursor, has_ghost);
            &&& (a matches BuildActionView::Replace(i, _) ==> t.sel == i && t.step == Build::List)
            &&& (a matches BuildActionView::Push(_) ==> t.sel == n && t.step == Build::List)
        }),
{
}

} // verus!
