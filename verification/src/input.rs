//! An editor of one line. The filter prompt, the SQL prompt, the search prompt
//! and the row-number prompt all use it.
//!
//! Each position in this module counts characters, and not bytes. A user can
//! filter on a value with characters that are not ASCII characters, and a
//! position in bytes would then be wrong.

use vstd::prelude::*;

use crate::chars::{
    alphanumeric, chars_of, scan_back, scan_fwd, text_columns, text_of, text_of_range, text_width,
    white_space,
};
use crate::keys::{KeyCode, KeyEvent, KeyModifiers};

verus! {

/// The largest number of lines that the history keeps.
pub const HISTORY_LIMIT: usize = 200;

/// What the editor did with a key.
#[derive(Clone, Copy, Debug, PartialEq, Eq, Structural)]
pub enum Action {
    /// The user pressed Enter. The caller must apply the text.
    Submit,
    /// The user pressed Esc. The caller must close the prompt.
    Cancel,
    /// The text or the cursor changed.
    Changed,
    /// The editor did nothing with the key.
    Ignored,
}

/// The text of one line, the cursor, and the history of the prompt.
#[derive(Clone, Debug)]
pub struct LineInput {
    chars: Vec<char>,
    cursor: usize,
    history: Vec<String>,
    /// The position in the history. `None` shows that the user edits a new
    /// line.
    hist_pos: Option<usize>,
    /// The line that the user typed, while the user looks at the history.
    stash: Option<String>,
}

/// The state of the editor as values: the line, the cursor, the history, the
/// position in the history and the line that waits while the user reads the
/// history.
pub struct LineState {
    pub chars: Seq<char>,
    pub cursor: nat,
    pub history: Seq<Seq<char>>,
    pub hist_pos: Option<nat>,
    pub stash: Option<Seq<char>>,
}

/// Gives `true` when no line occurs two times in the history.
pub open spec fn distinct(hs: Seq<Seq<char>>) -> bool {
    forall|i: int, j: int| 0 <= i < j < hs.len() ==> hs[i] != hs[j]
}

/// Gives `true` when each character of a text is white space, as for a text
/// that `str::trim` makes empty.
pub open spec fn blank(t: Seq<char>) -> bool {
    forall|i: int| 0 <= i < t.len() ==> white_space(#[trigger] t[i])
}

/// The history without each copy of the line `t`.
pub open spec fn without(hs: Seq<Seq<char>>, t: Seq<char>) -> Seq<Seq<char>>
    decreases hs.len(),
{
    if hs.len() == 0 {
        hs
    } else if hs.last() == t {
        without(hs.drop_last(), t)
    } else {
        without(hs.drop_last(), t).push(hs.last())
    }
}

/// The history after the line `t` went into it: the line moves to the end,
/// the history keeps no blank line, and it keeps the newest
/// [`HISTORY_LIMIT`] lines.
pub open spec fn remembered(hs: Seq<Seq<char>>, t: Seq<char>) -> Seq<Seq<char>> {
    if blank(t) {
        hs
    } else {
        let moved = without(hs, t).push(t);
        if moved.len() > HISTORY_LIMIT {
            moved.drop_first()
        } else {
            moved
        }
    }
}

/// A character that belongs to a name: a letter, a number, `_`, or the full
/// stop of a path such as `actor.login`.
pub open spec fn name_char(c: char) -> bool {
    alphanumeric(c) || c == '_' || c == '.'
}

/// The start of the name in front of a position.
pub open spec fn name_start_of(s: Seq<char>, cursor: int) -> int {
    scan_back(s, cursor, |c: char| name_char(c))
}

/// The start of the word in front of a position: the white space first, and
/// then the other characters.
pub open spec fn word_start_of(s: Seq<char>, cursor: int) -> int {
    scan_back(s, scan_back(s, cursor, |c: char| white_space(c)), |c: char| !white_space(c))
}

/// The end of the word after a position: the white space first, and then the
/// other characters.
pub open spec fn word_end_of(s: Seq<char>, cursor: int) -> int {
    scan_fwd(s, scan_fwd(s, cursor, |c: char| white_space(c)), |c: char| !white_space(c))
}

/// A state with another line, the cursor at its end.
pub open spec fn with_line(s: LineState, line: Seq<char>) -> LineState {
    LineState { chars: line, cursor: line.len(), ..s }
}

/// The line after `set` or `clear`: the text, with the cursor at its end and
/// no walk in the history.
pub open spec fn reset_to(s: LineState, t: Seq<char>) -> LineState {
    LineState { hist_pos: None, stash: None, ..with_line(s, t) }
}

/// The state after a move through the history. The value -1 moves to an older
/// line, and each other value moves to a newer line. The second part of the
/// pair says whether the move happened.
pub open spec fn recalled(s: LineState, delta: i32) -> (LineState, bool) {
    let n = s.history.len();
    if n == 0 {
        (s, false)
    } else {
        match s.hist_pos {
            Option::None => if delta == -1 {
                (
                    LineState {
                        stash: Some(s.chars),
                        hist_pos: Some((n - 1) as nat),
                        ..with_line(s, s.history[n - 1])
                    },
                    true,
                )
            } else {
                (s, false)
            },
            Option::Some(i) => if delta == -1 {
                let j: nat = if i == 0 { 0 } else { (i - 1) as nat };
                (LineState { hist_pos: Some(j), ..with_line(s, s.history[j as int]) }, true)
            } else if i >= n - 1 {
                // The user moved past the newest line: the line of the user
                // comes back.
                let back = match s.stash {
                    Option::Some(t) => t,
                    Option::None => Seq::empty(),
                };
                (LineState { hist_pos: None, stash: None, ..with_line(s, back) }, true)
            } else {
                let j: nat = (i + 1) as nat;
                (LineState { hist_pos: Some(j), ..with_line(s, s.history[j as int]) }, true)
            },
        }
    }
}

/// The history without a line keeps no copy of it, keeps the other lines in
/// their order, and loses one line at most when no line occurs two times.
pub proof fn lemma_without(hs: Seq<Seq<char>>, t: Seq<char>)
    ensures
        !without(hs, t).contains(t),
        forall|k: int| 0 <= k < without(hs, t).len() ==> hs.contains(#[trigger] without(hs, t)[k]),
        distinct(hs) ==> distinct(without(hs, t)),
        distinct(hs) ==> without(hs, t).len() + 1 >= hs.len(),
        without(hs, t).len() <= hs.len(),
        !hs.contains(t) ==> without(hs, t) == hs,
    decreases hs.len(),
{
    if hs.len() > 0 {
        let rest = hs.drop_last();
        lemma_without(rest, t);
        assert forall|k: int| 0 <= k < without(hs, t).len() implies hs.contains(
            #[trigger] without(hs, t)[k],
        ) by {
            if hs.last() == t {
                assert(rest.contains(without(rest, t)[k]));
                let m = choose|m: int| 0 <= m < rest.len() && rest[m] == without(rest, t)[k];
                assert(hs[m] == rest[m]);
            } else if k < without(rest, t).len() {
                assert(rest.contains(without(rest, t)[k]));
                let m = choose|m: int| 0 <= m < rest.len() && rest[m] == without(rest, t)[k];
                assert(hs[m] == rest[m]);
            } else {
                assert(hs[hs.len() - 1] == hs.last());
            }
        }
        if distinct(hs) {
            assert(distinct(rest)) by {
                assert forall|i: int, j: int| 0 <= i < j < rest.len() implies rest[i] != rest[j] by {
                    assert(hs[i] == rest[i] && hs[j] == rest[j]);
                }
            }
            if hs.last() != t {
                let w = without(rest, t);
                assert(!w.contains(hs.last())) by {
                    if w.contains(hs.last()) {
                        let k = choose|k: int| 0 <= k < w.len() && w[k] == hs.last();
                        assert(rest.contains(w[k]));
                        let m = choose|m: int| 0 <= m < rest.len() && rest[m] == w[k];
                        assert(hs[m] == hs[hs.len() - 1]);
                    }
                }
                assert forall|i: int, j: int| 0 <= i < j < w.push(hs.last()).len() implies w.push(
                    hs.last(),
                )[i] != w.push(hs.last())[j] by {
                    if j == w.len() {
                        assert(w.push(hs.last())[i] == w[i]);
                    }
                }
            } else {
                assert(!rest.contains(t)) by {
                    if rest.contains(t) {
                        let m = choose|m: int| 0 <= m < rest.len() && rest[m] == t;
                        assert(hs[m] == hs[hs.len() - 1]);
                    }
                }
            }
        }
        if !hs.contains(t) {
            assert(!rest.contains(t)) by {
                if rest.contains(t) {
                    let m = choose|m: int| 0 <= m < rest.len() && rest[m] == t;
                    assert(hs[m] == t);
                }
            }
            assert(hs.last() != t) by {
                assert(hs[hs.len() - 1] == hs.last());
            }
            assert(rest.push(hs.last()) =~= hs);
        }
        if without(hs, t).contains(t) {
            let k = choose|k: int| 0 <= k < without(hs, t).len() && without(hs, t)[k] == t;
            if hs.last() != t && k == without(rest, t).len() {
            } else {
                assert(without(rest, t).contains(t));
            }
        }
    }
}

/// What one key does to the editor: the new state and the action.
///
/// Enter submits and Esc or ^C cancels. ^A and Home go to the start, ^E and
/// End to the end. ^U removes the text in front of the cursor, ^K the text
/// after it, and ^W the word in front of it. Alt+B and Alt+F move one word.
/// The arrows move the cursor, or walk the history up and down. Backspace and
/// Delete remove one character, and a character with no control key and no
/// alt key goes in at the cursor.
pub open spec fn handled(s: LineState, key: KeyEvent) -> (LineState, Action) {
    let ctrl = key.modifiers.control;
    let alt = key.modifiers.alt;
    let n = s.chars.len();
    let cur = s.cursor as int;
    match key.code {
        KeyCode::Enter => (s, Action::Submit),
        KeyCode::Esc => (s, Action::Cancel),
        KeyCode::Char(c) if c == 'c' && ctrl => (s, Action::Cancel),
        KeyCode::Char(c) if c == 'a' && ctrl => (LineState { cursor: 0, ..s }, Action::Changed),
        KeyCode::Char(c) if c == 'e' && ctrl => (LineState { cursor: n, ..s }, Action::Changed),
        KeyCode::Char(c) if c == 'u' && ctrl => (
            LineState { chars: s.chars.skip(cur), cursor: 0, ..s },
            Action::Changed,
        ),
        KeyCode::Char(c) if c == 'k' && ctrl => (
            LineState { chars: s.chars.take(cur), ..s },
            Action::Changed,
        ),
        KeyCode::Char(c) if c == 'w' && ctrl => {
            let start = word_start_of(s.chars, cur);
            (
                LineState {
                    chars: s.chars.take(start) + s.chars.skip(cur),
                    cursor: start as nat,
                    ..s
                },
                Action::Changed,
            )
        },
        KeyCode::Char(c) if c == 'b' && alt => (
            LineState { cursor: word_start_of(s.chars, cur) as nat, ..s },
            Action::Changed,
        ),
        KeyCode::Char(c) if c == 'f' && alt => (
            LineState { cursor: word_end_of(s.chars, cur) as nat, ..s },
            Action::Changed,
        ),
        KeyCode::Left => (
            LineState { cursor: if s.cursor == 0 { 0 } else { (s.cursor - 1) as nat }, ..s },
            Action::Changed,
        ),
        KeyCode::Right => (
            LineState { cursor: if s.cursor + 1 <= n { s.cursor + 1 } else { n }, ..s },
            Action::Changed,
        ),
        KeyCode::Home => (LineState { cursor: 0, ..s }, Action::Changed),
        KeyCode::End => (LineState { cursor: n, ..s }, Action::Changed),
        KeyCode::Up => {
            let (t, moved) = recalled(s, -1i32);
            (t, if moved { Action::Changed } else { Action::Ignored })
        },
        KeyCode::Down => {
            let (t, moved) = recalled(s, 1i32);
            (t, if moved { Action::Changed } else { Action::Ignored })
        },
        KeyCode::Backspace => if s.cursor == 0 {
            (s, Action::Ignored)
        } else {
            (
                LineState {
                    chars: s.chars.remove(cur - 1),
                    cursor: (s.cursor - 1) as nat,
                    ..s
                },
                Action::Changed,
            )
        },
        KeyCode::Delete => if s.cursor >= n {
            (s, Action::Ignored)
        } else {
            (LineState { chars: s.chars.remove(cur), ..s }, Action::Changed)
        },
        KeyCode::Char(c) if !ctrl && !alt => (
            LineState {
                chars: s.chars.insert(cur, c),
                cursor: s.cursor + 1,
                hist_pos: None,
                ..s
            },
            Action::Changed,
        ),
        _ => (s, Action::Ignored),
    }
}

impl View for LineInput {
    type V = LineState;

    closed spec fn view(&self) -> LineState {
        LineState {
            chars: self.chars@,
            cursor: self.cursor as nat,
            history: self.history@.map_values(|h: String| h@),
            hist_pos: match self.hist_pos {
                Some(i) => Some(i as nat),
                None => None,
            },
            stash: match self.stash {
                Some(t) => Some(t@),
                None => None,
            },
        }
    }
}

impl Default for LineInput {
    /// An empty line with an empty history.
    fn default() -> (r: LineInput)
        ensures
            r.wf(),
            r@.chars == Seq::<char>::empty(),
            r@.cursor == 0,
            r@.history == Seq::<Seq<char>>::empty(),
            r@.hist_pos is None,
            r@.stash is None,
    {
        let r = LineInput {
            chars: Vec::new(),
            cursor: 0,
            history: Vec::new(),
            hist_pos: None,
            stash: None,
        };
        assert(r@.history =~= Seq::<Seq<char>>::empty());
        r
    }
}

impl LineInput {
    /// The rules that each state of the editor keeps: the cursor stays on the
    /// line, a position in the history points at a line of it, and the history
    /// holds no blank line, no line two times, and no more than
    /// [`HISTORY_LIMIT`] lines.
    pub open spec fn wf(&self) -> bool {
        &&& self@.cursor <= self@.chars.len()
        &&& (self@.hist_pos matches Some(i) ==> i < self@.history.len())
        &&& self@.history.len() <= HISTORY_LIMIT
        &&& distinct(self@.history)
        &&& forall|i: int| 0 <= i < self@.history.len() ==> !blank(#[trigger] self@.history[i])
    }

    /// Gives a copy of the editor: the same line, cursor and history.
    pub fn duplicate(&self) -> (r: LineInput)
        requires
            self.wf(),
        ensures
            r.wf(),
            r@ == self@,
    {
        let mut chars: Vec<char> = Vec::new();
        let mut i: usize = 0;
        while i < self.chars.len()
            invariant
                i <= self.chars@.len(),
                chars@ == self.chars@.take(i as int),
            decreases self.chars@.len() - i,
        {
            chars.push(self.chars[i]);
            i += 1;
            assert(chars@ =~= self.chars@.take(i as int));
        }
        assert(self.chars@.take(i as int) =~= self.chars@);
        let mut history: Vec<String> = Vec::new();
        let mut k: usize = 0;
        while k < self.history.len()
            invariant
                k <= self.history@.len(),
                history@.len() == k,
                forall|j: int| 0 <= j < k ==> #[trigger] history@[j]@ == self.history@[j]@,
            decreases self.history@.len() - k,
        {
            history.push(self.history[k].clone());
            k += 1;
        }
        assert(history@.map_values(|h: String| h@) =~= self.history@.map_values(|h: String| h@));
        let stash = match &self.stash {
            Some(t) => Some(t.clone()),
            None => None,
        };
        LineInput { chars, cursor: self.cursor, history, hist_pos: self.hist_pos, stash }
    }

    /// Gives the text of the line.
    pub fn text(&self) -> (r: String)
        ensures
            r@ == self@.chars,
    {
        let r = text_of(self.chars.as_slice());
        r
    }

    /// Gives `true` when the line holds no character.
    pub fn is_empty(&self) -> (r: bool)
        ensures
            r == (self@.chars.len() == 0),
    {
        self.chars.len() == 0
    }

    /// Puts a text in the line and moves the cursor to the end.
    pub fn set(&mut self, s: &str)
        requires
            old(self).wf(),
        ensures
            final(self).wf(),
            final(self)@ == (LineState {
                hist_pos: None,
                stash: None,
                ..with_line(old(self)@, s@)
            }),
    {
        self.chars = chars_of(s);
        self.cursor = self.chars.len();
        self.hist_pos = None;
        self.stash = None;
    }

    /// Removes each character from the line.
    pub fn clear(&mut self)
        requires
            old(self).wf(),
        ensures
            final(self).wf(),
            final(self)@ == (LineState {
                hist_pos: None,
                stash: None,
                ..with_line(old(self)@, Seq::empty())
            }),
    {
        self.chars = Vec::new();
        self.cursor = 0;
        self.hist_pos = None;
        self.stash = None;
    }

    /// Gives the width of the text in front of the cursor, in screen columns.
    /// The terminal cursor goes to that position.
    pub fn cursor_col(&self) -> (r: usize)
        requires
            self.wf(),
        ensures
            r == text_width(self@.chars.take(self@.cursor as int)),
    {
        let prefix = text_of_range(self.chars.as_slice(), 0, self.cursor);
        assert(self.chars@.subrange(0, self.cursor as int) =~= self.chars@.take(
            self.cursor as int,
        ));
        text_columns(prefix.as_str())
    }

    /// Puts the current line in the history.
    ///
    /// The function does not keep a blank line. If the line is in the history
    /// already, the function moves it to the end of the history. The history
    /// keeps the newest [`HISTORY_LIMIT`] lines.
    pub fn remember(&mut self)
        requires
            old(self).wf(),
        ensures
            final(self).wf(),
            final(self)@ == (LineState {
                history: remembered(old(self)@.history, old(self)@.chars),
                ..old(self)@
            }),
    {
        let mut all_space = true;
        let mut i: usize = 0;
        while i < self.chars.len()
            invariant
                i <= self.chars@.len(),
                all_space == (forall|k: int| 0 <= k < i ==> white_space(#[trigger] self.chars@[k])),
            decreases self.chars@.len() - i,
        {
            if !crate::chars::is_whitespace(self.chars[i]) {
                all_space = false;
            }
            i += 1;
        }
        if all_space {
            return;
        }
        let t = self.text();
        let ghost hs = self@.history;
        let mut kept: Vec<String> = Vec::new();
        let mut j: usize = 0;
        while j < self.history.len()
            invariant
                j <= self.history@.len(),
                hs == self.history@.map_values(|h: String| h@),
                t@ == self@.chars,
                kept@.map_values(|h: String| h@) == without(hs.take(j as int), t@),
            decreases self.history@.len() - j,
        {
            proof {
                assert(hs.take(j + 1).drop_last() =~= hs.take(j as int));
                assert(hs.take(j + 1).last() == hs[j as int]);
            }
            let same = self.history[j] == t;
            if !same {
                let h = self.history[j].clone();
                kept.push(h);
                assert(kept@.map_values(|h: String| h@) =~= without(hs.take(j as int), t@).push(
                    hs[j as int],
                ));
            }
            j += 1;
        }
        assert(hs.take(j as int) =~= hs);
        proof {
            lemma_without(hs, t@);
        }
        kept.push(t);
        assert(kept@.map_values(|h: String| h@) =~= without(hs, t@).push(self@.chars));
        if kept.len() > HISTORY_LIMIT {
            kept.remove(0);
            assert(kept@.map_values(|h: String| h@) =~= without(hs, t@).push(
                self@.chars,
            ).drop_first());
        }
        self.history = kept;
        proof {
            let moved = without(hs, t@).push(t@);
            assert(distinct(moved)) by {
                assert forall|a: int, b: int| 0 <= a < b < moved.len() implies moved[a]
                    != moved[b] by {
                    if b == moved.len() - 1 {
                        assert(moved[a] == without(hs, t@)[a]);
                    }
                }
            }
            assert forall|k: int| 0 <= k < moved.len() implies !blank(#[trigger] moved[k]) by {
                if k < moved.len() - 1 {
                    assert(hs.contains(without(hs, t@)[k]));
                    let m = choose|m: int| 0 <= m < hs.len() && hs[m] == without(hs, t@)[k];
                    assert(!blank(old(self)@.history[m]));
                } else {
                    let z = choose|z: int| 0 <= z < t@.len() && !white_space(t@[z]);
                    assert(!white_space(t@[z]));
                }
            }
            let fin = self@.history;
            if moved.len() > HISTORY_LIMIT {
                assert(fin == moved.drop_first());
                assert forall|a: int, b: int| 0 <= a < b < fin.len() implies fin[a]
                    != fin[b] by {
                    assert(fin[a] == moved[a + 1] && fin[b] == moved[b + 1]);
                }
                assert forall|k: int| 0 <= k < fin.len() implies !blank(#[trigger] fin[k]) by {
                    assert(fin[k] == moved[k + 1]);
                }
            }
        }
    }

    /// Gives the name that the user started to type in front of the cursor.
    ///
    /// A name holds letters, numbers, the character `_` and the full stop of a
    /// path. The completion of a column name uses this function, so the word
    /// must stop at each character that a statement uses, such as `(`, `=` or
    /// a space.
    pub fn word_before_cursor(&self) -> (r: String)
        requires
            self.wf(),
        ensures
            r@ == self@.chars.subrange(
                name_start_of(self@.chars, self@.cursor as int),
                self@.cursor as int,
            ),
    {
        let start = self.name_start();
        text_of_range(self.chars.as_slice(), start, self.cursor)
    }

    /// Replaces the name in front of the cursor and puts the cursor after it.
    pub fn replace_word_before_cursor(&mut self, text: &str)
        requires
            old(self).wf(),
        ensures
            final(self).wf(),
            ({
                let o = old(self)@;
                let start = name_start_of(o.chars, o.cursor as int);
                final(self)@ == LineState {
                    chars: o.chars.take(start) + text@ + o.chars.skip(o.cursor as int),
                    cursor: (start + text@.len()) as nat,
                    hist_pos: None,
                    ..o
                }
            }),
    {
        let start = self.name_start();
        let ins = chars_of(text);
        let mut out: Vec<char> = Vec::new();
        let mut i: usize = 0;
        while i < start
            invariant
                i <= start <= self.cursor <= self.chars@.len(),
                out@ == self.chars@.take(i as int),
            decreases start - i,
        {
            out.push(self.chars[i]);
            i += 1;
            assert(out@ =~= self.chars@.take(i as int));
        }
        let mut k: usize = 0;
        while k < ins.len()
            invariant
                k <= ins@.len(),
                ins@ == text@,
                start <= self.cursor <= self.chars@.len(),
                out@ == self.chars@.take(start as int) + ins@.take(k as int),
            decreases ins@.len() - k,
        {
            out.push(ins[k]);
            k += 1;
            assert(out@ =~= self.chars@.take(start as int) + ins@.take(k as int));
        }
        assert(ins@.take(k as int) =~= ins@);
        let new_cursor = out.len();
        let mut j: usize = self.cursor;
        while j < self.chars.len()
            invariant
                self.cursor <= j <= self.chars@.len(),
                ins@ == text@,
                start <= self.cursor,
                new_cursor == start + text@.len(),
                out@ == self.chars@.take(start as int) + text@ + self.chars@.subrange(
                    self.cursor as int,
                    j as int,
                ),
            decreases self.chars@.len() - j,
        {
            out.push(self.chars[j]);
            j += 1;
            assert(out@ =~= self.chars@.take(start as int) + text@ + self.chars@.subrange(
                self.cursor as int,
                j as int,
            ));
        }
        assert(self.chars@.subrange(self.cursor as int, j as int) =~= self.chars@.skip(
            self.cursor as int,
        ));
        self.chars = out;
        self.cursor = new_cursor;
        self.hist_pos = None;
    }

    /// Gives the position of the start of the name in front of the cursor.
    ///
    /// A full stop belongs to the name. A value inside a structure has a path
    /// such as `actor.login`, and the completion must see the whole path to
    /// know which fields to offer.
    fn name_start(&self) -> (r: usize)
        requires
            self.wf(),
        ensures
            r == name_start_of(self@.chars, self@.cursor as int),
            r <= self@.cursor,
    {
        let mut i = self.cursor;
        while i > 0 && (crate::chars::is_alphanumeric(self.chars[i - 1]) || self.chars[i - 1]
            == '_' || self.chars[i - 1] == '.')
            invariant
                i <= self.cursor <= self.chars@.len(),
                name_start_of(self@.chars, self@.cursor as int) == scan_back(
                    self@.chars,
                    i as int,
                    |c: char| name_char(c),
                ),
            decreases i,
        {
            i -= 1;
        }
        i
    }

    /// Gives the position of the start of the word in front of the cursor.
    fn word_start(&self) -> (r: usize)
        requires
            self.wf(),
        ensures
            r == word_start_of(self@.chars, self@.cursor as int),
            r <= self@.cursor,
    {
        let mut i = self.cursor;
        while i > 0 && crate::chars::is_whitespace(self.chars[i - 1])
            invariant
                i <= self.cursor <= self.chars@.len(),
                scan_back(self@.chars, self@.cursor as int, |c: char| white_space(c)) == scan_back(
                    self@.chars,
                    i as int,
                    |c: char| white_space(c),
                ),
            decreases i,
        {
            i -= 1;
        }
        let ghost mid = i;
        while i > 0 && !crate::chars::is_whitespace(self.chars[i - 1])
            invariant
                i <= mid <= self.cursor <= self.chars@.len(),
                mid == scan_back(self@.chars, self@.cursor as int, |c: char| white_space(c)),
                scan_back(self@.chars, mid as int, |c: char| !white_space(c)) == scan_back(
                    self@.chars,
                    i as int,
                    |c: char| !white_space(c),
                ),
            decreases i,
        {
            i -= 1;
        }
        i
    }

    /// Gives the position of the end of the word after the cursor.
    fn word_end(&self) -> (r: usize)
        requires
            self.wf(),
        ensures
            r == word_end_of(self@.chars, self@.cursor as int),
            self@.cursor <= r <= self@.chars.len(),
    {
        let mut i = self.cursor;
        let n = self.chars.len();
        while i < n && crate::chars::is_whitespace(self.chars[i])
            invariant
                self.cursor <= i <= n,
                n == self.chars@.len(),
                scan_fwd(self@.chars, self@.cursor as int, |c: char| white_space(c)) == scan_fwd(
                    self@.chars,
                    i as int,
                    |c: char| white_space(c),
                ),
            decreases n - i,
        {
            i += 1;
        }
        let ghost mid = i;
        while i < n && !crate::chars::is_whitespace(self.chars[i])
            invariant
                self.cursor <= mid <= i <= n,
                n == self.chars@.len(),
                mid == scan_fwd(self@.chars, self@.cursor as int, |c: char| white_space(c)),
                scan_fwd(self@.chars, mid as int, |c: char| !white_space(c)) == scan_fwd(
                    self@.chars,
                    i as int,
                    |c: char| !white_space(c),
                ),
            decreases n - i,
        {
            i += 1;
        }
        i
    }

    /// Moves through the history. The value -1 moves to an older line, and
    /// each other value moves to a newer line.
    fn recall(&mut self, delta: i32) -> (r: Action)
        requires
            old(self).wf(),
        ensures
            final(self).wf(),
            final(self)@ == recalled(old(self)@, delta).0,
            r == (if recalled(old(self)@, delta).1 { Action::Changed } else { Action::Ignored }),
    {
        if self.history.len() == 0 {
            return Action::Ignored;
        }
        let last = self.history.len() - 1;
        let next: Option<usize> = match self.hist_pos {
            None => {
                if delta == -1 {
                    self.stash = Some(self.text());
                    Some(last)
                } else {
                    return Action::Ignored;
                }
            },
            Some(i) => {
                if delta == -1 {
                    if i == 0 {
                        Some(0)
                    } else {
                        Some(i - 1)
                    }
                } else if i >= last {
                    None
                } else {
                    Some(i + 1)
                }
            },
        };
        match next {
            Some(i) => {
                let entry = self.history[i].clone();
                self.chars = chars_of(entry.as_str());
                self.cursor = self.chars.len();
                self.hist_pos = Some(i);
                proof {
                    assert(self.history@.map_values(|h: String| h@)[i as int] == entry@);
                }
            },
            None => {
                // The user moved past the newest line of the history. Put the
                // line of the user back in the prompt.
                let stash = match self.stash.take() {
                    Some(t) => t,
                    None => String::new(),
                };
                self.chars = chars_of(stash.as_str());
                self.cursor = self.chars.len();
                self.hist_pos = None;
            },
        }
        Action::Changed
    }

    /// Applies one key to the line and gives the result. Refer to
    /// [`handled`] for what each key does.
    pub fn handle(&mut self, key: &KeyEvent) -> (r: Action)
        requires
            old(self).wf(),
        ensures
            final(self).wf(),
            final(self)@ == handled(old(self)@, *key).0,
            r == handled(old(self)@, *key).1,
    {
        let ctrl = key.modifiers.control;
        let alt = key.modifiers.alt;
        let code = key.code;
        if code == KeyCode::Enter {
            return Action::Submit;
        }
        if code == KeyCode::Esc || (code == KeyCode::Char('c') && ctrl) {
            return Action::Cancel;
        }
        if (code == KeyCode::Char('a') && ctrl) || code == KeyCode::Home {
            self.cursor = 0;
            return Action::Changed;
        }
        if (code == KeyCode::Char('e') && ctrl) || code == KeyCode::End {
            self.cursor = self.chars.len();
            return Action::Changed;
        }
        if code == KeyCode::Char('u') && ctrl {
            self.chars = self.cut(0, self.cursor);
            self.cursor = 0;
            return Action::Changed;
        }
        if code == KeyCode::Char('k') && ctrl {
            self.chars.truncate(self.cursor);
            return Action::Changed;
        }
        if code == KeyCode::Char('w') && ctrl {
            let start = self.word_start();
            self.chars = self.cut(start, self.cursor);
            self.cursor = start;
            return Action::Changed;
        }
        if code == KeyCode::Char('b') && alt {
            self.cursor = self.word_start();
            return Action::Changed;
        }
        if code == KeyCode::Char('f') && alt {
            self.cursor = self.word_end();
            return Action::Changed;
        }
        match code {
            KeyCode::Left => {
                self.cursor = self.cursor.saturating_sub(1);
                Action::Changed
            },
            KeyCode::Right => {
                let n = self.chars.len();
                self.cursor = if self.cursor < n {
                    self.cursor + 1
                } else {
                    n
                };
                Action::Changed
            },
            KeyCode::Up => self.recall(-1),
            KeyCode::Down => self.recall(1),
            KeyCode::Backspace => {
                if self.cursor == 0 {
                    return Action::Ignored;
                }
                self.cursor -= 1;
                self.chars.remove(self.cursor);
                Action::Changed
            },
            KeyCode::Delete => {
                if self.cursor >= self.chars.len() {
                    return Action::Ignored;
                }
                self.chars.remove(self.cursor);
                Action::Changed
            },
            KeyCode::Char(c) => {
                if ctrl || alt {
                    return Action::Ignored;
                }
                self.chars.insert(self.cursor, c);
                let _n = self.chars.len();
                self.cursor += 1;
                self.hist_pos = None;
                Action::Changed
            },
            _ => Action::Ignored,
        }
    }

    /// Gives the line without the characters from `from` to `to`.
    fn cut(&self, from: usize, to: usize) -> (r: Vec<char>)
        requires
            from <= to <= self@.chars.len(),
        ensures
            r@ == self@.chars.take(from as int) + self@.chars.skip(to as int),
    {
        let mut out: Vec<char> = Vec::new();
        let mut i: usize = 0;
        while i < from
            invariant
                i <= from <= to <= self.chars@.len(),
                out@ == self.chars@.take(i as int),
            decreases from - i,
        {
            out.push(self.chars[i]);
            i += 1;
            assert(out@ =~= self.chars@.take(i as int));
        }
        let mut j: usize = to;
        while j < self.chars.len()
            invariant
                from <= to <= j <= self.chars@.len(),
                out@ == self.chars@.take(from as int) + self.chars@.subrange(to as int, j as int),
            decreases self.chars@.len() - j,
        {
            out.push(self.chars[j]);
            j += 1;
            assert(out@ =~= self.chars@.take(from as int) + self.chars@.subrange(
                to as int,
                j as int,
            ));
        }
        assert(self.chars@.subrange(to as int, j as int) =~= self.chars@.skip(to as int));
        out
    }

    /// Gives `true` when the cursor is after the last character.
    ///
    /// The ghost completion draws in the room after the cursor. In the middle
    /// of a line there is no such room: the text of the user is there.
    pub fn cursor_at_end(&self) -> (r: bool)
        ensures
            r == (self@.cursor >= self@.chars.len()),
    {
        self.cursor >= self.chars.len()
    }
}

} // verus!

verus! {

/// A character typed at the cursor and then taken back with Backspace leaves
/// the line and the cursor as they were.
pub proof fn typing_then_backspace_restores_the_line(s: LineState, c: char, mods: KeyModifiers)
    requires
        s.cursor <= s.chars.len(),
        !mods.control,
        !mods.alt,
    ensures
        ({
            let typed = handled(s, KeyEvent { code: KeyCode::Char(c), modifiers: mods });
            let back = handled(typed.0, KeyEvent { code: KeyCode::Backspace, modifiers: mods });
            &&& typed.1 == Action::Changed
            &&& back.1 == Action::Changed
            &&& back.0.chars == s.chars
            &&& back.0.cursor == s.cursor
        }),
{
    let typed = handled(s, KeyEvent { code: KeyCode::Char(c), modifiers: mods });
    assert(typed.0.chars == s.chars.insert(s.cursor as int, c));
    assert(typed.0.chars.remove(s.cursor as int) =~= s.chars);
}

/// Up and then Down bring back the line that the user was typing, and leave
/// the history.
pub proof fn up_then_down_restores_the_draft(s: LineState)
    requires
        s.history.len() > 0,
        s.hist_pos is None,
    ensures
        ({
            let up = handled(s, KeyEvent { code: KeyCode::Up, modifiers: KeyModifiers::spec_none() });
            let down = handled(up.0, KeyEvent { code: KeyCode::Down, modifiers: KeyModifiers::spec_none() });
            &&& up.1 == Action::Changed
            &&& up.0.chars == s.history.last()
            &&& down.1 == Action::Changed
            &&& down.0.chars == s.chars
            &&& down.0.hist_pos is None
            &&& down.0.history == s.history
        }),
{
}

/// Down while the user does not walk the history changes nothing.
pub proof fn down_without_history_walk_is_ignored(s: LineState, mods: KeyModifiers)
    requires
        s.hist_pos is None,
    ensures
        handled(s, KeyEvent { code: KeyCode::Down, modifiers: mods }) == (s, Action::Ignored),
{
}

/// Up at the oldest line of the history stays there.
pub proof fn up_stops_at_the_oldest_line(s: LineState, mods: KeyModifiers)
    requires
        s.history.len() > 0,
        s.hist_pos == Some(0nat),
    ensures
        handled(s, KeyEvent { code: KeyCode::Up, modifiers: mods }).0.chars == s.history[0],
        handled(s, KeyEvent { code: KeyCode::Up, modifiers: mods }).0.hist_pos == Some(0nat),
{
}

/// Enter and Esc leave the line as it is; the caller applies or drops it.
pub proof fn enter_and_esc_keep_the_line(s: LineState, mods: KeyModifiers)
    ensures
        handled(s, KeyEvent { code: KeyCode::Enter, modifiers: mods }) == (s, Action::Submit),
        handled(s, KeyEvent { code: KeyCode::Esc, modifiers: mods }) == (s, Action::Cancel),
{
}

} // verus!
