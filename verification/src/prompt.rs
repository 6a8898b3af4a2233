//! The prompt at the bottom of the screen: the line in which the user types
//! a filter, a statement, a value to search for, or a row number.
//!
//! A key changes the line and gives a [`PromptAction`], which says what the
//! program does: close the prompt, check an expression, apply a filter or a
//! statement, start a search, or move the cursor to a row.

use vstd::prelude::*;

use crate::app::PromptKind;
use crate::chars::{read_unsigned, unsigned_read, quote, quoted, text_of, trimmed, trimmed_chars};
use crate::input::{handled, remembered, reset_to, Action, LineInput, LineState, HISTORY_LIMIT, blank, without};
use crate::keys::{plain, KeyCode, KeyEvent, KeyModifiers};
use crate::settings::{ends_with, without_separator_chars, without_separators};

verus! {

broadcast use vstd::string::group_string_axioms;

/// The number that `str::parse::<u64>` reads from a text, or `None` when it
/// refuses the text: refer to [`unsigned_read`].
pub open spec fn u64_read(s: Seq<char>) -> Option<u64> {
    match unsigned_read(s, u64::MAX as nat) {
        Some(v) => Some(v as u64),
        None => None,
    }
}

/// Reads a number from a text, as `str::parse::<u64>` does.
fn read_u64(s: &str) -> (r: Option<u64>)
    ensures
        r == u64_read(s@),
{
    read_unsigned(s, u64::MAX)
}

/// What the program does after a key in the prompt.
#[derive(Debug)]
pub enum PromptAction {
    /// Nothing more.
    Nothing,
    /// Complete the name of a column in the line.
    Complete,
    /// Close the prompt.
    Close,
    /// Check this expression or statement, and give the verdict to
    /// [`Prompt::checked`].
    Check(String),
    /// The line changed: check it, and give the verdict to
    /// [`Prompt::set_fault`].
    Recheck,
    /// Close the prompt and take this `WHERE` expression as the whole filter
    /// (an empty text removes the filter).
    Filter(String),
    /// Close the prompt and show the rows of this statement, or of the file
    /// for `None`; the filter and the sort of the old view go away.
    Sql(Option<String>),
    /// Close the prompt and search for this text (an empty text stops the
    /// search).
    Search(String),
    /// Close the prompt and move the cursor to this row.
    Goto(u64),
    /// Close the prompt and show this fault.
    Fault(String),
    /// Close the prompt and show this message.
    Info(&'static str),
}

/// An action as values.
pub enum PromptActionView {
    Nothing,
    Complete,
    Close,
    Check(Seq<char>),
    Recheck,
    Filter(Seq<char>),
    Sql(Option<Seq<char>>),
    Search(Seq<char>),
    Goto(u64),
    Fault(Seq<char>),
    Info(Seq<char>),
}

/// The value of an action.
pub open spec fn prompt_action_view(a: PromptAction) -> PromptActionView {
    match a {
        PromptAction::Nothing => PromptActionView::Nothing,
        PromptAction::Complete => PromptActionView::Complete,
        PromptAction::Close => PromptActionView::Close,
        PromptAction::Check(t) => PromptActionView::Check(t@),
        PromptAction::Recheck => PromptActionView::Recheck,
        PromptAction::Filter(t) => PromptActionView::Filter(t@),
        PromptAction::Sql(t) => PromptActionView::Sql(
            match t {
                Some(s) => Some(s@),
                None => None,
            },
        ),
        PromptAction::Search(t) => PromptActionView::Search(t@),
        PromptAction::Goto(r) => PromptActionView::Goto(r),
        PromptAction::Fault(t) => PromptActionView::Fault(t@),
        PromptAction::Info(t) => PromptActionView::Info(t@),
    }
}

/// The prompt: what it asks for, the editor of the line, and the fault of
/// the text that it holds.
#[derive(Debug)]
pub struct Prompt {
    pub kind: PromptKind,
    pub input: LineInput,
    pub error: Option<String>,
}

/// The prompt as values.
pub struct PromptState {
    pub kind: PromptKind,
    pub input: LineState,
    pub error: Option<Seq<char>>,
}

impl View for Prompt {
    type V = PromptState;

    closed spec fn view(&self) -> PromptState {
        PromptState {
            kind: self.kind,
            input: self.input@,
            error: match self.error {
                Some(e) => Some(e@),
                None => None,
            },
        }
    }
}

/// The line with the text of the line added to its history.
pub open spec fn kept_line(s: LineState) -> LineState {
    LineState { history: remembered(s.history, s.chars), ..s }
}

/// Gives `true` for the prompts whose text is SQL, which the program checks
/// and in which a column name completes.
pub open spec fn takes_sql(kind: PromptKind) -> bool {
    kind == PromptKind::Filter || kind == PromptKind::Sql
}

/// The prompt after Enter, and what the program does. `max_row` is the
/// largest row that the cursor can reach, or `u64::MAX` while the rows are
/// counted.
///
/// The text counts without the white space at its ends. A filter is checked
/// before it applies, and an empty one removes the filter. A statement that
/// ends at the word `WHERE` lacks its condition and stays in the prompt; an
/// empty one goes back to the file, and each other one is checked first. A
/// search takes the text as it is. A row number may group its digits with
/// commas and underscores, and the first row has the number 1; the cursor
/// goes to that row, or to the last row when the number is larger. An
/// accepted text goes into the history of the line.
pub open spec fn submitted(s: PromptState, max_row: u64) -> (PromptState, PromptActionView) {
    let t = trimmed(s.input.chars);
    let kept = PromptState { input: kept_line(s.input), error: None, ..s };
    match s.kind {
        PromptKind::Filter => if t.len() == 0 {
            (kept, PromptActionView::Filter(t))
        } else {
            (s, PromptActionView::Check(t))
        },
        PromptKind::Sql => if "WHERE"@.is_suffix_of(t) || "where"@.is_suffix_of(t) {
            (PromptState { error: Some("write a condition after WHERE, or press Esc"@), ..s }, PromptActionView::Nothing)
        } else if t.len() == 0 {
            (kept, PromptActionView::Sql(None))
        } else {
            (s, PromptActionView::Check(t))
        },
        PromptKind::Search => (PromptState { input: kept_line(s.input), ..s }, PromptActionView::Search(t)),
        PromptKind::Goto => (
            s,
            match u64_read(without_separators(t)) {
                Some(n) if n >= 1 => if max_row == u64::MAX {
                    PromptActionView::Info("still counting — try again in a moment"@)
                } else {
                    PromptActionView::Goto(if n - 1 <= max_row { (n - 1) as u64 } else { max_row })
                },
                _ => PromptActionView::Fault("not a row number: "@ + quoted(t)),
            },
        ),
    }
}

/// The prompt after a key, and what the program does. `has_ghost` says
/// whether a completion waits at the end of the line.
///
/// In a prompt of SQL, Tab takes the completion, and so does the arrow to
/// the right with no control key when a completion waits. Each other key
/// goes to the editor. Esc closes the prompt and keeps the line in the
/// history, so that the arrow up brings it back. Enter submits the line:
/// refer to [`submitted`]. A change of a line of SQL asks for a check; any
/// other change clears the fault.
pub open spec fn prompt_step(s: PromptState, key: KeyEvent, has_ghost: bool, max_row: u64) -> (PromptState, PromptActionView) {
    if takes_sql(s.kind) && (key.code == KeyCode::Tab || (key.code == KeyCode::Right && plain(key) && has_ghost)) {
        (s, PromptActionView::Complete)
    } else {
        let (f, act) = handled(s.input, key);
        let t = PromptState { input: f, ..s };
        match act {
            Action::Cancel => (PromptState { input: kept_line(f), error: None, ..s }, PromptActionView::Close),
            Action::Submit => submitted(t, max_row),
            Action::Changed => if takes_sql(s.kind) && f.chars.len() > 0 {
                (t, PromptActionView::Recheck)
            } else {
                (PromptState { error: None, ..t }, PromptActionView::Nothing)
            },
            Action::Ignored => (t, PromptActionView::Nothing),
        }
    }
}

/// The prompt after the program checked the text `text`, and what the
/// program does: a refused text stays with the fault, and an accepted one
/// goes into the history and applies.
pub open spec fn checked_prompt(s: PromptState, text: Seq<char>, fault: Option<Seq<char>>) -> (PromptState, PromptActionView) {
    match fault {
        Some(e) => (PromptState { error: Some(e), ..s }, PromptActionView::Nothing),
        None => (
            PromptState { input: kept_line(s.input), error: None, ..s },
            if s.kind == PromptKind::Sql {
                PromptActionView::Sql(Some(text))
            } else {
                PromptActionView::Filter(text)
            },
        ),
    }
}

impl Prompt {
    /// The rules that each prompt keeps: a well-formed editor.
    pub closed spec fn wf(&self) -> bool {
        self.input.wf()
    }

    /// Opens a prompt with an editor and the text that the user starts from:
    /// the filter of the view, the statement behind the grid (or the start of
    /// one), the text of the last search, or nothing for a row number.
    pub fn open(kind: PromptKind, input: LineInput, text: &str) -> (r: Prompt)
        requires
            input.wf(),
        ensures
            r.wf(),
            r@ == (PromptState { kind, input: reset_to(input@, text@), error: None }),
    {
        let mut input = input;
        input.set(text);
        Prompt { kind, input, error: None }
    }

    /// Applies one key: refer to [`prompt_step`].
    pub fn on_key(&mut self, key: &KeyEvent, has_ghost: bool, max_row: u64) -> (r: PromptAction)
        requires
            old(self).wf(),
        ensures
            final(self).wf(),
            (final(self)@, prompt_action_view(r)) == prompt_step(old(self)@, *key, has_ghost, max_row),
    {
        let sql = self.kind == PromptKind::Filter || self.kind == PromptKind::Sql;
        if sql && (key.code == KeyCode::Tab || (key.code == KeyCode::Right && !key.modifiers.control
            && !key.modifiers.alt && has_ghost)) {
            return PromptAction::Complete;
        }
        let act = self.input.handle(key);
        match act {
            Action::Cancel => {
                self.input.remember();
                self.error = None;
                PromptAction::Close
            },
            Action::Submit => self.submit(max_row),
            Action::Changed => {
                if sql && !self.input.is_empty() {
                    PromptAction::Recheck
                } else {
                    self.error = None;
                    PromptAction::Nothing
                }
            },
            Action::Ignored => PromptAction::Nothing,
        }
    }

    /// Applies Enter: refer to [`submitted`].
    fn submit(&mut self, max_row: u64) -> (r: PromptAction)
        requires
            old(self).wf(),
        ensures
            final(self).wf(),
            (final(self)@, prompt_action_view(r)) == submitted(old(self)@, max_row),
    {
        let text = self.input.text();
        let t = trimmed_chars(text.as_str());
        let trimmed_text = text_of(t.as_slice());
        match self.kind {
            PromptKind::Filter => {
                if t.len() == 0 {
                    self.input.remember();
                    self.error = None;
                    PromptAction::Filter(trimmed_text)
                } else {
                    PromptAction::Check(trimmed_text)
                }
            },
            PromptKind::Sql => {
                if ends_with(&t, "WHERE") || ends_with(&t, "where") {
                    self.error = Some(String::from_str("write a condition after WHERE, or press Esc"));
                    PromptAction::Nothing
                } else if t.len() == 0 {
                    self.input.remember();
                    self.error = None;
                    PromptAction::Sql(None)
                } else {
                    PromptAction::Check(trimmed_text)
                }
            },
            PromptKind::Search => {
                self.input.remember();
                PromptAction::Search(trimmed_text)
            },
            PromptKind::Goto => {
                let digits = without_separator_chars(&t);
                let read = read_u64(text_of(digits.as_slice()).as_str());
                match read {
                    Some(n) if n >= 1 => {
                        if max_row == u64::MAX {
                            PromptAction::Info("still counting — try again in a moment")
                        } else {
                            PromptAction::Goto(if n - 1 <= max_row { n - 1 } else { max_row })
                        }
                    },
                    _ => {
                        let mut m = String::from_str("not a row number: ");
                        let q = quote(trimmed_text.as_str());
                        m.append(q.as_str());
                        PromptAction::Fault(m)
                    },
                }
            },
        }
    }

    /// Takes the verdict of the program on the text `text` of a prompt of
    /// SQL: refer to [`checked_prompt`].
    pub fn checked(&mut self, text: String, verdict: Result<(), String>) -> (r: PromptAction)
        requires
            old(self).wf(),
        ensures
            final(self).wf(),
            (final(self)@, prompt_action_view(r)) == checked_prompt(
                old(self)@,
                text@,
                match verdict {
                    Ok(_) => None,
                    Err(e) => Some(e@),
                },
            ),
    {
        match verdict {
            Err(e) => {
                self.error = Some(e);
                PromptAction::Nothing
            },
            Ok(()) => {
                self.input.remember();
                self.error = None;
                if self.kind == PromptKind::Sql {
                    PromptAction::Sql(Some(text))
                } else {
                    PromptAction::Filter(text)
                }
            },
        }
    }

    /// Takes the verdict of the program on the line after a change: the
    /// fault of a refused line, and no fault for an empty line.
    pub fn set_fault(&mut self, verdict: Result<(), String>)
        requires
            old(self).wf(),
        ensures
            final(self).wf(),
            final(self)@ == (PromptState {
                error: if old(self)@.input.chars.len() == 0 {
                    None
                } else {
                    match verdict {
                        Ok(_) => None,
                        Err(e) => Some(e@),
                    }
                },
                ..old(self)@
            }),
    {
        self.error = if self.input.is_empty() {
            None
        } else {
            match verdict {
                Ok(()) => None,
                Err(e) => Some(e),
            }
        };
    }
}

} // verus!

verus! {

/// The history ends with the last line that went into it, when that line
/// holds more than white space.
pub proof fn lemma_remembered_ends_with(hs: Seq<Seq<char>>, t: Seq<char>)
    requires
        !blank(t),
    ensures
        remembered(hs, t).len() >= 1,
        remembered(hs, t).last() == t,
{
    let moved = without(hs, t).push(t);
    if moved.len() > HISTORY_LIMIT {
        assert(moved.drop_first().last() == moved.last());
    }
}

/// Esc never throws a line away: after Esc closes a prompt whose line holds
/// more than white space, the arrow up in the next prompt that opens on the
/// same editor, whatever text it starts from, brings the line back.
pub proof fn esc_keeps_the_line_for_the_arrow_up(
    s: PromptState,
    esc: KeyModifiers,
    has_ghost: bool,
    max_row: u64,
    next: Seq<char>,
)
    requires
        !blank(s.input.chars),
    ensures
        ({
            let (t, a) = prompt_step(s, KeyEvent { code: KeyCode::Esc, modifiers: esc }, has_ghost, max_row);
            let reopened = reset_to(t.input, next);
            let (u, _) = handled(reopened, KeyEvent { code: KeyCode::Up, modifiers: KeyModifiers::spec_none() });
            &&& a == PromptActionView::Close
            &&& u.chars == s.input.chars
        }),
{
    lemma_remembered_ends_with(s.input.history, s.input.chars);
}

} // verus!
