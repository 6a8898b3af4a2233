//! The record view: one row of the grid as a tree of its fields, which the
//! user walks with the keys, opens and closes, and searches.
//!
//! The view holds the tree of the row, the selected line, and the find box.
//! A key changes that state and gives a [`RecordAction`]: the program does
//! what the action names (it closes the view, asks the engine for another
//! row, puts a text on the clipboard, or shows a message).

use vstd::prelude::*;

use crate::app::{offered, text_view};
use crate::browser::moved;
use crate::chars::{lower_text, trimmed};
use crate::input::{handled, reset_to, Action, LineInput, LineState};
use crate::keys::{plain, KeyCode, KeyEvent, KeyModifiers};
use crate::tree::{
    collect, copy_text, json_fault, json_text, line_view, lines_view, node_at, path_view, toggled, walk,
    walk_fields, Json, Line, LineView, Step, StepView, Tree,
};

verus! {

/// What the program must do after a key in the record view.
#[derive(Debug)]
pub enum RecordAction {
    /// Nothing more.
    Nothing,
    /// Close the record view, and put the cursor of the grid on the column of
    /// the selected field.
    Close,
    /// Show the next row (`1`) or the row before it (`-1`), with the same
    /// lines open.
    StepRow(i64),
    /// Show a value in full in the cell inspector: the text of the value, and
    /// the path to it.
    Inspect(String, Vec<Step>),
    /// Put a text on the clipboard; the second text says what it is.
    Copy(String, &'static str),
    /// Put the path of a field on the clipboard, as a statement writes it.
    CopyPath(Vec<Step>),
    /// Filter the view on the value of a line: keep the rows with that value
    /// (`true`), or the other rows (`false`).
    Filter(Line, bool),
    /// Say that a change happened.
    Done(&'static str),
    /// Say that the key found nothing to act on.
    Fault(&'static str),
}

/// An action as values.
pub enum ActionView {
    Nothing,
    Close,
    StepRow(int),
    Inspect(Seq<char>, Seq<StepView>),
    Copy(Seq<char>, Seq<char>),
    CopyPath(Seq<StepView>),
    Filter(LineView, bool),
    Done(Seq<char>),
    Fault(Seq<char>),
}

/// The value of an action.
pub open spec fn action_view(a: RecordAction) -> ActionView {
    match a {
        RecordAction::Nothing => ActionView::Nothing,
        RecordAction::Close => ActionView::Close,
        RecordAction::StepRow(d) => ActionView::StepRow(d as int),
        RecordAction::Inspect(v, p) => ActionView::Inspect(v@, path_view(p@)),
        RecordAction::Copy(t, what) => ActionView::Copy(t@, what@),
        RecordAction::CopyPath(p) => ActionView::CopyPath(path_view(p@)),
        RecordAction::Filter(l, keep) => ActionView::Filter(line_view(l), keep),
        RecordAction::Done(m) => ActionView::Done(m@),
        RecordAction::Fault(m) => ActionView::Fault(m@),
    }
}

/// The state of the record view.
#[derive(Debug)]
pub struct RecordView {
    /// The row as a tree.
    pub tree: Tree,
    /// The selected line.
    pub sel: usize,
    /// The text that the find box looks for.
    pub find: String,
    /// `true` while the user types in the find box.
    pub finding: bool,
    /// The editor of the find box.
    pub input: LineInput,
}

/// The record view as values: the row, the lines that are open, whether the
/// empty fields hide, the fault of the row, the selected line, the text of
/// the find box, whether the user types in it, and its editor.
pub struct RecordState {
    pub root: Option<Json>,
    pub paths: Set<Seq<StepView>>,
    pub hide: bool,
    pub fault: Option<String>,
    pub sel: nat,
    pub find: Seq<char>,
    pub finding: bool,
    pub input: LineState,
}

impl View for RecordView {
    type V = RecordState;

    closed spec fn view(&self) -> RecordState {
        RecordState {
            root: self.tree.root_value(),
            paths: self.tree.paths(),
            hide: self.tree.hides_empty(),
            fault: self.tree.fault(),
            sel: self.sel as nat,
            find: self.find@,
            finding: self.finding,
            input: self.input@,
        }
    }
}

/// The lines of a tree: the same rule as [`Tree::spec_lines`], over the
/// values of the tree.
pub open spec fn tree_lines(
    root: Option<Json>,
    hide: bool,
    paths: Set<Seq<StepView>>,
    needle: Seq<char>,
) -> Seq<LineView> {
    match root {
        None => Seq::empty(),
        Some(Json::Object(m, _)) => walk_fields(hide, paths, needle, m@, 0, Seq::empty(), 0),
        Some(other) => walk(hide, paths, needle, StepView::Field("value"@), other, Seq::empty(), 0),
    }
}

/// The lines that the record view shows: those that the text of the find
/// box keeps.
pub open spec fn rec_lines(s: RecordState) -> Seq<LineView> {
    tree_lines(s.root, s.hide, s.paths, lower_text(trimmed(s.find)))
}

/// The names of the fields that the find box completes: the labels of the
/// lines with an empty find box.
pub open spec fn rec_names(s: RecordState) -> Seq<Seq<char>> {
    tree_lines(s.root, s.hide, s.paths, lower_text(trimmed(Seq::empty()))).map_values(|l: LineView| l.label)
}

/// The rest of a name that the find box offers, with the cursor at the end
/// of its text.
pub open spec fn rec_ghost(s: RecordState) -> Option<Seq<char>> {
    if s.input.cursor < s.input.chars.len() {
        None
    } else {
        offered(s.input.chars, rec_names(s))
    }
}

/// The selected line, when the cursor is on one.
pub open spec fn selected_line(s: RecordState) -> Option<LineView> {
    if s.sel < rec_lines(s).len() {
        Some(rec_lines(s)[s.sel as int])
    } else {
        None
    }
}

/// The view after a move of the cursor by `delta` lines, inside the list.
pub open spec fn rec_moved(s: RecordState, delta: int) -> RecordState {
    RecordState { sel: moved(s.sel as int, delta, rec_lines(s).len() as int), ..s }
}

/// The view with the selected line open, when it is a line that opens.
pub open spec fn rec_opened(s: RecordState) -> RecordState {
    match selected_line(s) {
        Some(l) => if l.kind.spec_opens() {
            RecordState { paths: s.paths.insert(l.path), ..s }
        } else {
            s
        },
        None => s,
    }
}

/// The closest line above the line `i` whose level is below `depth`.
pub open spec fn parent_line(ls: Seq<LineView>, i: int, depth: nat) -> Option<nat>
    decreases i,
{
    if i <= 0 {
        None
    } else if ls[i - 1].depth < depth {
        Some((i - 1) as nat)
    } else {
        parent_line(ls, i - 1, depth)
    }
}

/// The view after the key that closes: an open line closes; on a line that
/// is closed already, the cursor goes to the line that holds it.
pub open spec fn rec_closed(s: RecordState) -> RecordState {
    match selected_line(s) {
        None => s,
        Some(l) => if l.kind.spec_opens() && l.open {
            RecordState { paths: s.paths.remove(l.path), ..s }
        } else if l.depth == 0 {
            s
        } else {
            match parent_line(rec_lines(s), s.sel as int, l.depth) {
                Some(p) => RecordState { sel: p, ..s },
                None => s,
            }
        },
    }
}

/// The text of the value at a path of the row, as the clipboard takes it.
pub open spec fn value_text(s: RecordState, path: Seq<StepView>) -> Option<Seq<char>> {
    match s.root {
        None => None,
        Some(r) => match node_at(r, path) {
            None => None,
            Some(v) => Some(copy_text(v)),
        },
    }
}

/// The paths after the key that opens each level.
pub open spec fn all_open(s: RecordState) -> Set<Seq<StepView>> {
    match s.root {
        None => s.paths,
        Some(r) => s.paths + collect(r, Seq::empty(), 0).to_set(),
    }
}

/// The record view after one key while the user types in the find box.
///
/// Tab takes the name that the ghost shows, and so does the plain right
/// arrow at the end of the text; the list then starts at its first line.
/// Each other key goes to the editor of the box: Esc leaves the box and
/// empties it, Enter leaves the box and keeps the text, and a change of the
/// text searches again from the first line.
pub open spec fn find_key(s: RecordState, key: KeyEvent) -> RecordState {
    let at_end = s.input.cursor >= s.input.chars.len();
    let take = key.code == KeyCode::Tab || (key.code == KeyCode::Right && plain(key) && at_end);
    if take && rec_ghost(s) is Some {
        let full = s.input.chars + rec_ghost(s).unwrap();
        RecordState { input: reset_to(s.input, full), find: full, sel: 0, ..s }
    } else {
        let (f, act) = handled(s.input, key);
        match act {
            Action::Cancel => RecordState { input: f, finding: false, find: Seq::empty(), sel: 0, ..s },
            Action::Submit => RecordState { input: f, finding: false, ..s },
            Action::Changed => RecordState { input: f, find: f.chars, sel: 0, ..s },
            Action::Ignored => RecordState { input: f, ..s },
        }
    }
}

/// The record view after one key, and what the program must do.
///
/// While the user types in the find box, refer to [`find_key`]. Otherwise:
/// Esc, `q` and `r` close the view; `j`, `k`, the arrows up and down and the
/// page keys move the cursor; `g` and Home go to the first line, `G` and End
/// to the last one; `n` and `p` ask for the next row and the row before; `/`
/// opens the find box with its text; the right arrow and `l` open the line,
/// the left arrow and `h` close it or go to the line that holds it; the space
/// opens or closes the line; Enter opens a line that opens and shows each
/// other value in full; `a` opens each level and `c` closes each one; `z`
/// shows or hides the fields with no value; `y` copies the value, `Y` the
/// row as JSON, and `P` the path of the field; `=` and `!` filter the view
/// on the value.
pub open spec fn record_key(s: RecordState, key: KeyEvent) -> (RecordState, ActionView) {
    let n = rec_lines(s).len() as int;
    if s.finding {
        (find_key(s, key), ActionView::Nothing)
    } else {
        match key.code {
            KeyCode::Esc => (s, ActionView::Close),
            KeyCode::Char(c) if c == 'q' || c == 'r' => (s, ActionView::Close),
            KeyCode::Char(c) if c == 'j' => (rec_moved(s, 1), ActionView::Nothing),
            KeyCode::Down => (rec_moved(s, 1), ActionView::Nothing),
            KeyCode::Char(c) if c == 'k' => (rec_moved(s, -1), ActionView::Nothing),
            KeyCode::Up => (rec_moved(s, -1), ActionView::Nothing),
            KeyCode::PageDown => (rec_moved(s, 10), ActionView::Nothing),
            KeyCode::PageUp => (rec_moved(s, -10), ActionView::Nothing),
            KeyCode::Char(c) if c == 'g' => (RecordState { sel: 0, ..s }, ActionView::Nothing),
            KeyCode::Home => (RecordState { sel: 0, ..s }, ActionView::Nothing),
            KeyCode::Char(c) if c == 'G' => (
                RecordState { sel: if n > 0 { (n - 1) as nat } else { 0 }, ..s },
                ActionView::Nothing,
            ),
            KeyCode::End => (
                RecordState { sel: if n > 0 { (n - 1) as nat } else { 0 }, ..s },
                ActionView::Nothing,
            ),
            KeyCode::Char(c) if c == 'n' => (s, ActionView::StepRow(1)),
            KeyCode::Char(c) if c == 'p' => (s, ActionView::StepRow(-1)),
            KeyCode::Char(c) if c == '/' => (
                RecordState { finding: true, input: reset_to(s.input, s.find), ..s },
                ActionView::Nothing,
            ),
            KeyCode::Right => (rec_opened(s), ActionView::Nothing),
            KeyCode::Char(c) if c == 'l' => (rec_opened(s), ActionView::Nothing),
            KeyCode::Left => (rec_closed(s), ActionView::Nothing),
            KeyCode::Char(c) if c == 'h' => (rec_closed(s), ActionView::Nothing),
            KeyCode::Char(c) if c == ' ' => match selected_line(s) {
                Some(l) => if l.kind.spec_opens() {
                    (RecordState { paths: toggled(s.paths, l.path), ..s }, ActionView::Nothing)
                } else {
                    (s, ActionView::Nothing)
                },
                None => (s, ActionView::Nothing),
            },
            KeyCode::Enter => match selected_line(s) {
                Some(l) => if l.kind.spec_opens() {
                    (rec_opened(s), ActionView::Nothing)
                } else {
                    match value_text(s, l.path) {
                        Some(v) => (s, ActionView::Inspect(v, l.path)),
                        None => (s, ActionView::Nothing),
                    }
                },
                None => (s, ActionView::Nothing),
            },
            KeyCode::Char(c) if c == 'a' => (
                RecordState { paths: all_open(s), ..s },
                ActionView::Done("each level is open"@),
            ),
            KeyCode::Char(c) if c == 'c' => (
                RecordState { paths: Set::empty(), sel: 0, ..s },
                ActionView::Done("each level is closed"@),
            ),
            KeyCode::Char(c) if c == 'z' => (
                RecordState { hide: !s.hide, sel: 0, ..s },
                ActionView::Done(
                    if !s.hide {
                        "the fields with no value are hidden"@
                    } else {
                        "each field is shown"@
                    },
                ),
            ),
            KeyCode::Char(c) if c == 'y' => (
                s,
                match selected_line(s) {
                    Some(l) => match value_text(s, l.path) {
                        Some(v) => ActionView::Copy(v, "value"@),
                        None => ActionView::Fault("no value here yet"@),
                    },
                    None => ActionView::Fault("no value here yet"@),
                },
            ),
            KeyCode::Char(c) if c == 'Y' => (
                s,
                match s.root {
                    Some(r) => ActionView::Copy(json_text(r), "record as JSON"@),
                    None => ActionView::Fault("no row here yet"@),
                },
            ),
            KeyCode::Char(c) if c == 'P' => (
                s,
                match selected_line(s) {
                    Some(l) => ActionView::CopyPath(l.path),
                    None => ActionView::Fault("no field here"@),
                },
            ),
            KeyCode::Char(c) if c == '=' || c == '!' => (
                s,
                match selected_line(s) {
                    Some(l) => ActionView::Filter(l, c == '='),
                    None => ActionView::Nothing,
                },
            ),
            _ => (s, ActionView::Nothing),
        }
    }
}

/// The record view after a click on the line `at`, whether the screen
/// changed, and what the program must do; `double` says whether the click
/// closed a double click.
///
/// A double click does what Enter does. The first click on a line selects
/// it and takes the focus from the find box; a click on the selected line
/// opens or closes it, as the space does, and the screen changes when the
/// count of the lines changes.
pub open spec fn record_click(s: RecordState, at: nat, double: bool) -> (RecordState, bool, ActionView) {
    let n = rec_lines(s).len();
    if double {
        let (t, a) = record_key(s, KeyEvent { code: KeyCode::Enter, modifiers: KeyModifiers::spec_none() });
        (t, true, a)
    } else if at >= n {
        (s, false, ActionView::Nothing)
    } else {
        let picked = RecordState { finding: false, sel: at, ..s };
        if s.sel != at || s.finding {
            (picked, true, ActionView::Nothing)
        } else {
            let (t, a) = record_key(
                picked,
                KeyEvent { code: KeyCode::Char(' '), modifiers: KeyModifiers::spec_none() },
            );
            (t, rec_lines(t).len() != n, a)
        }
    }
}

} // verus!

verus! {

impl RecordView {
    /// The rules that each state keeps: the tree keeps each open path once,
    /// and the find box is a well-formed editor.
    pub closed spec fn wf(&self) -> bool {
        self.tree.wf() && self.input.wf()
    }

    /// The record view with no row yet, with the cursor on the line `sel`.
    ///
    /// The program starts the view on the column under the cursor of the grid,
    /// and then asks the engine for the row.
    pub fn new(sel: usize) -> (r: RecordView)
        ensures
            r.wf(),
            r@.root is None,
            r@.paths == Set::<Seq<StepView>>::empty(),
            r@.hide,
            r@.fault is None,
            r@.sel == sel,
            r@.find == Seq::<char>::empty(),
            !r@.finding,
            r@.input.chars == Seq::<char>::empty(),
    {
        RecordView { tree: Tree::default(), sel, find: String::new(), finding: false, input: LineInput::default() }
    }

    /// Gives the lines that the view shows.
    pub fn lines(&self) -> (r: Vec<Line>)
        ensures
            lines_view(r@) == rec_lines(self@),
    {
        self.tree.lines(self.find.as_str())
    }

    /// Gives the selected line.
    pub fn line(&self) -> (r: Option<Line>)
        ensures
            match r {
                Some(l) => selected_line(self@) == Some(line_view(l)),
                None => selected_line(self@) is None,
            },
    {
        let mut ls = self.lines();
        if self.sel < ls.len() {
            let ghost lv = lines_view(ls@);
            let l = ls.swap_remove(self.sel);
            assert(line_view(l) == lv[self.sel as int]);
            Some(l)
        } else {
            None
        }
    }

    /// Shows the row that the engine gave as JSON text, or no row. The lines
    /// that are open and the rule about the empty fields follow the user to
    /// the new row, and the cursor stays inside the list.
    pub fn show_row(&mut self, row: Option<&str>)
        requires
            old(self).wf(),
        ensures
            final(self).wf(),
            final(self)@.root is Some <==> (row matches Some(j) && json_fault(j@) is None),
            match row {
                None => final(self)@.fault is None,
                Some(j) => match final(self)@.fault {
                    None => json_fault(j@) is None,
                    Some(e) => json_fault(j@) == Some(e@),
                },
            },
            final(self)@.paths == match row {
                Some(_) => old(self)@.paths,
                None => Set::<Seq<StepView>>::empty(),
            },
            final(self)@.hide == match row {
                Some(_) => old(self)@.hide,
                None => true,
            },
            final(self)@.find == old(self)@.find,
            final(self)@.finding == old(self)@.finding,
            final(self)@.input == old(self)@.input,
            final(self)@.sel == if old(self)@.sel < rec_lines(final(self)@).len() {
                old(self)@.sel as int
            } else if rec_lines(final(self)@).len() > 0 {
                rec_lines(final(self)@).len() - 1
            } else {
                0
            },
    {
        let mut old_tree = Tree::default();
        std::mem::swap(&mut old_tree, &mut self.tree);
        match row {
            Some(json) => {
                self.tree = old_tree.with_row(json);
            },
            None => {},
        }
        let n = self.lines().len();
        if self.sel >= n {
            self.sel = if n > 0 { n - 1 } else { 0 };
        }
    }

    /// Shows a row as [`RecordView::show_row`] does, from the row that
    /// `serde_json` read or the message of its fault.
    pub fn show_parsed(&mut self, row: Option<Result<Json, String>>)
        requires
            old(self).wf(),
        ensures
            final(self).wf(),
            final(self)@.root == match row {
                Some(Ok(j)) => Some(j),
                _ => None::<Json>,
            },
            final(self)@.fault == match row {
                Some(Err(e)) => Some(e),
                _ => None::<String>,
            },
            final(self)@.paths == match row {
                Some(_) => old(self)@.paths,
                None => Set::<Seq<StepView>>::empty(),
            },
            final(self)@.hide == match row {
                Some(_) => old(self)@.hide,
                None => true,
            },
            final(self)@.find == old(self)@.find,
            final(self)@.finding == old(self)@.finding,
            final(self)@.input == old(self)@.input,
            final(self)@.sel == if old(self)@.sel < rec_lines(final(self)@).len() {
                old(self)@.sel as int
            } else if rec_lines(final(self)@).len() > 0 {
                rec_lines(final(self)@).len() - 1
            } else {
                0
            },
    {
        let mut old_tree = Tree::default();
        std::mem::swap(&mut old_tree, &mut self.tree);
        match row {
            Some(parsed) => {
                self.tree = old_tree.with_parsed(parsed);
            },
            None => {},
        }
        let n = self.lines().len();
        if self.sel >= n {
            self.sel = if n > 0 { n - 1 } else { 0 };
        }
    }

    /// Opens the field of a column of the row at the level 0. The key Enter on
    /// a cell that holds other values opens the record view this way, so the
    /// way into that value needs no second key.
    pub fn open_column(&mut self, name: String)
        requires
            old(self).wf(),
        ensures
            final(self).wf(),
            final(self)@ == (RecordState {
                paths: old(self)@.paths.insert(seq![StepView::Field(name@)]),
                ..old(self)@
            }),
    {
        let ghost nv = name@;
        let path = vec![Step::Field(name)];
        assert(path_view(path@) =~= seq![StepView::Field(nv)]);
        self.tree.open_path(path.as_slice());
    }

    /// Moves the cursor by `delta` lines, inside the list.
    fn move_sel(&mut self, delta: i64)
        requires
            old(self).wf(),
        ensures
            final(self).wf(),
            final(self)@ == rec_moved(old(self)@, delta as int),
    {
        let n = self.lines().len();
        if n == 0 {
            return;
        }
        let target: i128 = self.sel as i128 + delta as i128;
        let top: i128 = n as i128 - 1;
        self.sel = if target < 0 { 0 } else if target > top { n - 1 } else { target as usize };
    }

    /// Opens the selected line, when it is a line that opens.
    fn open_line(&mut self)
        requires
            old(self).wf(),
        ensures
            final(self).wf(),
            final(self)@ == rec_opened(old(self)@),
    {
        if let Some(l) = self.line() {
            if l.kind.opens() {
                self.tree.open_path(l.path.as_slice());
            }
        }
    }

    /// Closes the selected line, or moves to the line that holds it.
    ///
    /// A line that is closed already has nothing to close. The user then
    /// wants to leave that level, so the cursor moves to the line above it at
    /// the smaller level.
    fn close_line(&mut self)
        requires
            old(self).wf(),
        ensures
            final(self).wf(),
            final(self)@ == rec_closed(old(self)@),
    {
        let l = match self.line() {
            Some(l) => l,
            None => {
                return;
            },
        };
        if l.kind.opens() && l.open {
            self.tree.close_path(l.path.as_slice());
            return;
        }
        if l.depth == 0 {
            return;
        }
        let lines = self.lines();
        let ghost lv = lines_view(lines@);
        let mut i: usize = self.sel;
        while i > 0
            invariant
                self.wf(),
                self@ == old(self)@,
                selected_line(old(self)@) == Some(line_view(l)),
                !(l.kind.spec_opens() && l.open),
                l.depth != 0,
                i <= self.sel,
                self.sel < lines@.len(),
                lv == lines_view(lines@),
                lv == rec_lines(self@),
                parent_line(lv, i as int, l.depth as nat) == parent_line(lv, self.sel as int, l.depth as nat),
            decreases i,
        {
            assert(lv[i - 1].depth == lines@[i - 1].depth);
            if lines[i - 1].depth < l.depth {
                self.sel = i - 1;
                return;
            }
            i -= 1;
        }
    }

    /// Gives the rest of a name that the find box offers.
    pub fn ghost(&self) -> (r: Option<String>)
        ensures
            text_view(r) == rec_ghost(self@),
    {
        if !self.input.cursor_at_end() {
            return None;
        }
        let all = self.tree.lines("");
        let mut names: Vec<String> = Vec::new();
        let mut i: usize = 0;
        while i < all.len()
            invariant
                i <= all@.len(),
                names@.len() == i,
                forall|k: int| 0 <= k < i ==> #[trigger] names@[k]@ == line_view(all@[k]).label,
            decreases all@.len() - i,
        {
            names.push(all[i].label.clone());
            i += 1;
        }
        let text = self.input.text();
        let r = crate::app::offer(text.as_str(), &names);
        proof {
            reveal_strlit("");
            assert(names@.map_values(|n: String| n@) =~= rec_names(self@));
        }
        r
    }
}

} // verus!

verus! {

impl RecordView {
    /// Applies one key while the user types in the find box: refer to
    /// [`find_key`].
    fn on_find_key(&mut self, key: &KeyEvent)
        requires
            old(self).wf(),
            old(self)@.finding,
        ensures
            final(self).wf(),
            final(self)@ == find_key(old(self)@, *key),
    {
        let plain_key = !key.modifiers.control && !key.modifiers.alt;
        let take = key.code == KeyCode::Tab || (key.code == KeyCode::Right && plain_key
            && self.input.cursor_at_end());
        if take {
            if let Some(rest) = self.ghost() {
                let mut full = self.input.text();
                full.append(rest.as_str());
                self.input.set(full.as_str());
                self.find = full;
                self.sel = 0;
                return;
            }
        }
        let act = self.input.handle(key);
        match act {
            Action::Cancel => {
                self.finding = false;
                self.find = String::new();
                self.sel = 0;
            },
            Action::Submit => {
                self.finding = false;
            },
            Action::Changed => {
                self.find = self.input.text();
                self.sel = 0;
            },
            Action::Ignored => {},
        }
    }

    /// Applies one key that is a character, outside the find box.
    fn on_char(&mut self, key: &KeyEvent, c: char) -> (r: RecordAction)
        requires
            old(self).wf(),
            !old(self)@.finding,
            key.code == KeyCode::Char(c),
        ensures
            final(self).wf(),
            (final(self)@, action_view(r)) == record_key(old(self)@, *key),
    {
        if c == 'q' || c == 'r' {
            RecordAction::Close
        } else if c == 'j' {
            self.move_sel(1);
            RecordAction::Nothing
        } else if c == 'k' {
            self.move_sel(-1);
            RecordAction::Nothing
        } else if c == 'g' {
            self.sel = 0;
            RecordAction::Nothing
        } else if c == 'G' {
            self.sel = self.lines().len().saturating_sub(1);
            RecordAction::Nothing
        } else if c == 'n' {
            RecordAction::StepRow(1)
        } else if c == 'p' {
            RecordAction::StepRow(-1)
        } else if c == '/' {
            self.finding = true;
            self.input.set(self.find.as_str());
            RecordAction::Nothing
        } else if c == 'l' {
            self.open_line();
            RecordAction::Nothing
        } else if c == 'h' {
            self.close_line();
            RecordAction::Nothing
        } else if c == ' ' {
            if let Some(l) = self.line() {
                if l.kind.opens() {
                    self.tree.toggle(l.path.as_slice());
                }
            }
            RecordAction::Nothing
        } else if c == 'a' {
            self.tree.expand_all();
            RecordAction::Done("each level is open")
        } else if c == 'c' {
            self.tree.collapse_all();
            self.sel = 0;
            RecordAction::Done("each level is closed")
        } else if c == 'z' {
            let hide = !self.tree.hides_empty_fields();
            self.tree.set_hides_empty(hide);
            self.sel = 0;
            if hide {
                RecordAction::Done("the fields with no value are hidden")
            } else {
                RecordAction::Done("each field is shown")
            }
        } else if c == 'y' {
            match self.line() {
                Some(l) => match self.tree.value_at(l.path.as_slice()) {
                    Some(v) => RecordAction::Copy(v, "value"),
                    None => RecordAction::Fault("no value here yet"),
                },
                None => RecordAction::Fault("no value here yet"),
            }
        } else if c == 'Y' {
            match self.tree.as_json() {
                Some(j) => RecordAction::Copy(j, "record as JSON"),
                None => RecordAction::Fault("no row here yet"),
            }
        } else if c == 'P' {
            match self.line() {
                Some(l) => RecordAction::CopyPath(l.path),
                None => RecordAction::Fault("no field here"),
            }
        } else if c == '=' || c == '!' {
            match self.line() {
                Some(l) => RecordAction::Filter(l, c == '='),
                None => RecordAction::Nothing,
            }
        } else {
            RecordAction::Nothing
        }
    }

    /// Applies one key, and gives what the program must do: refer to
    /// [`record_key`].
    pub fn on_key(&mut self, key: &KeyEvent) -> (r: RecordAction)
        requires
            old(self).wf(),
        ensures
            final(self).wf(),
            (final(self)@, action_view(r)) == record_key(old(self)@, *key),
    {
        if self.finding {
            self.on_find_key(key);
            return RecordAction::Nothing;
        }
        match key.code {
            KeyCode::Char(c) => self.on_char(key, c),
            KeyCode::Esc => RecordAction::Close,
            KeyCode::Down => {
                self.move_sel(1);
                RecordAction::Nothing
            },
            KeyCode::Up => {
                self.move_sel(-1);
                RecordAction::Nothing
            },
            KeyCode::PageDown => {
                self.move_sel(10);
                RecordAction::Nothing
            },
            KeyCode::PageUp => {
                self.move_sel(-10);
                RecordAction::Nothing
            },
            KeyCode::Home => {
                self.sel = 0;
                RecordAction::Nothing
            },
            KeyCode::End => {
                self.sel = self.lines().len().saturating_sub(1);
                RecordAction::Nothing
            },
            KeyCode::Right => {
                self.open_line();
                RecordAction::Nothing
            },
            KeyCode::Left => {
                self.close_line();
                RecordAction::Nothing
            },
            KeyCode::Enter => match self.line() {
                Some(l) => {
                    if l.kind.opens() {
                        self.tree.open_path(l.path.as_slice());
                        RecordAction::Nothing
                    } else {
                        match self.tree.value_at(l.path.as_slice()) {
                            Some(v) => RecordAction::Inspect(v, l.path),
                            None => RecordAction::Nothing,
                        }
                    }
                },
                None => RecordAction::Nothing,
            },
            _ => RecordAction::Nothing,
        }
    }

    /// Applies a click on the line `at`, and gives whether the screen changed
    /// and what the program must do: refer to [`record_click`].
    pub fn click(&mut self, at: usize, double: bool) -> (r: (bool, RecordAction))
        requires
            old(self).wf(),
        ensures
            final(self).wf(),
            (final(self)@, r.0, action_view(r.1)) == record_click(old(self)@, at as nat, double),
    {
        if double {
            let a = self.on_key(&KeyEvent::new(KeyCode::Enter, KeyModifiers::none()));
            return (true, a);
        }
        let n = self.lines().len();
        if at >= n {
            return (false, RecordAction::Nothing);
        }
        let same = self.sel == at && !self.finding;
        self.finding = false;
        self.sel = at;
        if !same {
            return (true, RecordAction::Nothing);
        }
        let a = self.on_key(&KeyEvent::new(KeyCode::Char(' '), KeyModifiers::none()));
        (self.lines().len() != n, a)
    }
}

} // verus!

verus! {

impl RecordView {
    /// Moves the cursor for one turn of the wheel, by
    /// [`WHEEL_ROWS`](crate::app::WHEEL_ROWS) lines, and gives whether it
    /// moved.
    ///
    /// The wheel moves the list itself and never goes through the keys: in the
    /// find box an arrow key belongs to the text, and a turn of the wheel must
    /// never write in the box or take its focus.
    pub fn wheel(&mut self, down: bool) -> (r: bool)
        requires
            old(self).wf(),
        ensures
            final(self).wf(),
            final(self)@ == rec_moved(old(self)@, if down { 3 } else { -3 }),
            r == (final(self)@.sel != old(self)@.sel),
    {
        let before = self.sel;
        let step: i64 = if down { crate::app::WHEEL_ROWS } else { -crate::app::WHEEL_ROWS };
        self.move_sel(step);
        self.sel != before
    }
}

/// In the find box, Esc empties the box and leaves it, and a second Esc
/// closes the record view.
pub proof fn a_second_esc_closes_the_record(s: RecordState, mods: KeyModifiers)
    requires
        s.finding,
    ensures
        ({
            let esc = KeyEvent { code: KeyCode::Esc, modifiers: mods };
            let first = record_key(s, esc);
            &&& !first.0.finding
            &&& first.0.find == Seq::<char>::empty()
            &&& first.0.sel == 0
            &&& first.1 == ActionView::Nothing
            &&& record_key(first.0, esc) == (first.0, ActionView::Close)
        }),
{
}

/// A click on a line that is not the selected one, or that the find box
/// holds the focus from, selects that line and changes nothing else: it
/// never opens or closes a value by accident.
pub proof fn a_first_click_only_selects(s: RecordState, at: nat)
    requires
        at < rec_lines(s).len(),
        s.sel != at || s.finding,
    ensures
        record_click(s, at, false) == (RecordState { finding: false, sel: at, ..s }, true, ActionView::Nothing),
{
}

} // verus!

verus! {

/// The columns of a line of the record view, for a box `width` columns
/// wide: the name takes two fifths of the width, from 8 to 44 columns, the
/// type takes 11 columns when the box has room for 32 more columns after
/// the name, and the value takes the rest, after a space behind each part.
#[derive(Clone, Copy, Debug, PartialEq, Eq, Structural)]
pub struct RecordColumns {
    pub name_w: usize,
    pub type_w: usize,
    /// The column of the value, from the left edge of the box.
    pub value_at: usize,
    pub value_w: usize,
}

/// The columns of a line: refer to [`RecordColumns`].
pub open spec fn record_columns_of(width: u16) -> RecordColumns {
    let part: int = width * 2 / 5;
    let name_w: int = if part < 8 { 8 } else if part > 44 { 44 } else { part };
    let type_w: int = if width > name_w + 32 { 11 } else { 0 };
    let value_at: int = name_w + 1 + type_w + if type_w > 0 { 1int } else { 0int };
    let value_w: int = if width >= value_at { width - value_at } else { 0 };
    RecordColumns { name_w: name_w as usize, type_w: type_w as usize, value_at: value_at as usize, value_w: value_w as usize }
}

/// Gives the columns of a line of the record view: refer to
/// [`record_columns_of`].
pub fn record_columns(width: u16) -> (r: RecordColumns)
    ensures
        r == record_columns_of(width),
        r.value_at + r.value_w <= width || r.value_w == 0,
{
    let w = width as usize;
    let part = w * 2 / 5;
    let name_w = if part < 8 { 8 } else if part > 44 { 44 } else { part };
    let type_w: usize = if w > name_w + 32 { 11 } else { 0 };
    let value_at = name_w + 1 + type_w + if type_w > 0 { 1 } else { 0 };
    let value_w = if w >= value_at { w - value_at } else { 0 };
    RecordColumns { name_w, type_w, value_at, value_w }
}

/// The title of the record view: the number of the row, counted from one,
/// and the number of rows of the view when it is known, both as the viewer
/// writes counts.
pub open spec fn record_title_text(row: Seq<char>, total: Option<Seq<char>>) -> Seq<char> {
    match total {
        Some(n) => "record "@ + row + " of "@ + n,
        None => "record "@ + row,
    }
}

/// Gives the title of the record view: refer to [`record_title_text`].
pub fn record_title(row: &str, total: Option<&str>) -> (r: String)
    ensures
        r@ == record_title_text(
            row@,
            match total {
                Some(n) => Some(n@),
                None => None,
            },
        ),
{
    let mut r = String::from_str("record ");
    r.append(row);
    match total {
        Some(n) => {
            r.append(" of ");
            r.append(n);
        },
        None => {},
    }
    r
}

/// The name part of a line: two spaces for each level, the mark of a line
/// that opens (`▾` when open, `▸` when closed, two spaces otherwise), and the
/// label.
pub open spec fn record_name_text(depth: nat, opens: bool, open: bool, label: Seq<char>) -> Seq<char> {
    Seq::new(2 * depth, |i: int| ' ') + (if !opens { "  "@ } else if open { "▾ "@ } else { "▸ "@ }) + label
}

/// Gives the name part of a line: refer to [`record_name_text`].
pub fn record_name(depth: usize, opens: bool, open: bool, label: &str) -> (r: String)
    requires
        depth <= usize::MAX / 2,
    ensures
        r@ == record_name_text(depth as nat, opens, open, label@),
{
    let mut r = String::new();
    let total = 2 * depth;
    let mut k: usize = 0;
    while k < total
        invariant
            k <= total == 2 * depth,
            r@ == Seq::new(k as nat, |i: int| ' '),
        decreases total - k,
    {
        crate::chars::push_char(&mut r, ' ');
        k += 1;
        assert(r@ =~= Seq::new(k as nat, |i: int| ' '));
    }
    if !opens {
        r.append("  ");
    } else if open {
        r.append("▾ ");
    } else {
        r.append("▸ ");
    }
    r.append(label);
    r
}

/// The note of a record view with no line to show, and the keys under it:
/// a row that the program could not read gives the fault, a row that has not
/// arrived says so, and a find box that kept no line names its text.
pub open spec fn record_note_text(fault: Option<Seq<char>>, has_row: bool, find: Seq<char>) -> (Seq<char>, Seq<char>) {
    if !has_row {
        match fault {
            Some(e) => ("cannot read this row: "@ + e, " Esc closes "@),
            None => ("reading…"@, " Esc closes "@),
        }
    } else if trimmed(find).len() == 0 {
        ("this row holds no field"@, " Esc clears the find box "@)
    } else {
        ("no field holds "@ + crate::chars::quoted(find), " Esc clears the find box "@)
    }
}

/// Gives the note of a record view with no line to show: refer to
/// [`record_note_text`]. `has_row` says whether the view holds a row.
pub fn record_note(fault: Option<&str>, has_row: bool, find: &str) -> (r: (String, &'static str))
    ensures
        (r.0@, r.1@) == record_note_text(
            match fault {
                Some(e) => Some(e@),
                None => None,
            },
            has_row,
            find@,
        ),
{
    if !has_row {
        match fault {
            Some(e) => {
                let mut m = String::from_str("cannot read this row: ");
                m.append(e);
                (m, " Esc closes ")
            },
            None => (String::from_str("reading…"), " Esc closes "),
        }
    } else if crate::chars::trimmed_chars(find).len() == 0 {
        (String::from_str("this row holds no field"), " Esc clears the find box ")
    } else {
        let mut m = String::from_str("no field holds ");
        m.append(crate::chars::quote(find).as_str());
        (m, " Esc clears the find box ")
    }
}

} // verus!
