//! The answers of the engine: which of them still concern the view on the
//! screen, and what each one changes in the state of the grid before the
//! program keeps the data that it brings.
//!
//! Each request carries the epoch of the view that asked. A change of the
//! view starts a new epoch, so an answer with an older epoch speaks of a view
//! that the user left, and it changes nothing.

use vstd::prelude::*;

use crate::chars::{text_of, trimmed, trimmed_chars};
use crate::cursor::{follow, followed_top};

verus! {

broadcast use vstd::string::group_string_axioms;

/// An answer of the engine, with the parts of it that the grid reads.
#[derive(Debug)]
pub enum Reply {
    /// The engine starts (`true`) or ends a request.
    Busy(bool),
    /// The file of text is indexed.
    Indexed,
    /// The metadata of the file.
    Meta,
    /// A request failed: the epoch, the part of the viewer that asked, and
    /// the message of the engine.
    Error { epoch: u64, context: String, message: String },
    /// The columns of the view, by their names.
    Schema { epoch: u64, names: Vec<String> },
    /// A page of rows; `max_row` is the last row that the cursor can reach
    /// once the page is kept.
    Page { epoch: u64, max_row: u64 },
    /// The number of rows of the view.
    Count { epoch: u64, total: u64 },
    /// One row as JSON for the record view, with the number of the row.
    RowJson { epoch: u64, row: u64 },
    /// Each other answer: statistics, the band, a cell, the settings of the
    /// engine, the matches of a search.
    Other { epoch: u64 },
}

/// What the program does with an answer after [`ReplyState::take`].
#[derive(Debug)]
pub enum ReplyOutcome {
    /// Nothing: the screen needs no new frame.
    Skip,
    /// Draw a new frame.
    Draw,
    /// Keep the data that the answer brings, and draw a new frame.
    Keep,
    /// Show that a change happened, and draw a new frame.
    Done(&'static str),
    /// Show this fault, and draw a new frame.
    Fault(String),
}

/// The part of the state of the viewer that the answers change.
#[derive(Debug)]
pub struct ReplyState {
    /// The epoch of the view on the screen.
    pub epoch: u64,
    pub busy: bool,
    pub indexing: bool,
    pub seekable: bool,
    pub meta_error: bool,
    pub band_error: bool,
    pub stats_error: bool,
    pub cursor_row: u64,
    pub top_row: u64,
    pub viewport_rows: u16,
    pub cursor_col: usize,
    pub left_col: usize,
    /// The names of the columns of the view.
    pub names: Vec<String>,
    pub widths: Vec<u16>,
    pub hidden: Vec<bool>,
    pub widths_fitted: bool,
    /// The row that the record view shows, when it is open.
    pub record_row: Option<u64>,
}

/// The state as values.
pub struct ReplyView {
    pub epoch: u64,
    pub busy: bool,
    pub indexing: bool,
    pub seekable: bool,
    pub meta_error: bool,
    pub band_error: bool,
    pub stats_error: bool,
    pub cursor_row: u64,
    pub top_row: u64,
    pub viewport_rows: u16,
    pub cursor_col: usize,
    pub left_col: usize,
    pub names: Seq<Seq<char>>,
    pub widths: Seq<u16>,
    pub hidden: Seq<bool>,
    pub widths_fitted: bool,
    pub record_row: Option<u64>,
}

impl View for ReplyState {
    type V = ReplyView;

    open spec fn view(&self) -> ReplyView {
        ReplyView {
            epoch: self.epoch,
            busy: self.busy,
            indexing: self.indexing,
            seekable: self.seekable,
            meta_error: self.meta_error,
            band_error: self.band_error,
            stats_error: self.stats_error,
            cursor_row: self.cursor_row,
            top_row: self.top_row,
            viewport_rows: self.viewport_rows,
            cursor_col: self.cursor_col,
            left_col: self.left_col,
            names: self.names@.map_values(|n: String| n@),
            widths: self.widths@,
            hidden: self.hidden@,
            widths_fitted: self.widths_fitted,
            record_row: self.record_row,
        }
    }
}

/// An outcome as values.
pub enum OutcomeView {
    Skip,
    Draw,
    Keep,
    Done(Seq<char>),
    Fault(Seq<char>),
}

/// The value of an outcome.
pub open spec fn outcome_view(o: ReplyOutcome) -> OutcomeView {
    match o {
        ReplyOutcome::Skip => OutcomeView::Skip,
        ReplyOutcome::Draw => OutcomeView::Draw,
        ReplyOutcome::Keep => OutcomeView::Keep,
        ReplyOutcome::Done(m) => OutcomeView::Done(m@),
        ReplyOutcome::Fault(m) => OutcomeView::Fault(m@),
    }
}

/// The epoch of an answer, for the answers that carry one.
pub open spec fn reply_epoch(r: Reply) -> Option<u64> {
    match r {
        Reply::Busy(_) | Reply::Indexed | Reply::Meta => None,
        Reply::Error { epoch, .. } => Some(epoch),
        Reply::Schema { epoch, .. } => Some(epoch),
        Reply::Page { epoch, .. } => Some(epoch),
        Reply::Count { epoch, .. } => Some(epoch),
        Reply::RowJson { epoch, .. } => Some(epoch),
        Reply::Other { epoch } => Some(epoch),
    }
}

/// The first line of a message, without the white space at its ends: the
/// engine writes the useful part first, and the whole statement after it.
pub open spec fn first_line(m: Seq<char>) -> Seq<char> {
    match m.index_of_first('\n') {
        Some(i) => trimmed(m.take(i)),
        None => trimmed(m),
    }
}

/// The cursor at its row or at the last row, when that row is above it,
/// with the window that follows it.
pub open spec fn clamped(s: ReplyView, max_row: u64) -> ReplyView {
    if s.cursor_row > max_row {
        ReplyView { cursor_row: max_row, top_row: followed_top(max_row, s.top_row, s.viewport_rows), ..s }
    } else {
        s
    }
}

/// The state after an answer, and what the program does with it.
///
/// `Busy` asks for a frame only when it changes what the screen shows. The
/// index and the metadata describe the file and not the view, so they count
/// whatever their epoch is, and so does the fact that the metadata failed.
/// Each other answer with an older epoch changes nothing. A failure ends the
/// indexing, marks the part of the screen that asked (the band or the
/// statistics) so that it does not ask again by itself, and gives the first
/// line of the message. New columns, by their names, put back the widths of
/// twelve columns, show each column and move the cursor and the window to the
/// first column. A page or a count can show that the cursor is past the last
/// row, and it then goes back to that row. A row for the record view counts
/// only when the view still shows that row.
pub open spec fn reply_step(s: ReplyView, r: Reply) -> (ReplyView, OutcomeView) {
    match r {
        Reply::Busy(b) => (ReplyView { busy: b, ..s }, if s.busy != b { OutcomeView::Draw } else { OutcomeView::Skip }),
        Reply::Indexed => (
            ReplyView { indexing: false, seekable: true, ..s },
            OutcomeView::Done("indexed — jumping is now instant"@),
        ),
        Reply::Meta => (s, OutcomeView::Keep),
        Reply::Error { epoch, context, message } => {
            let t = if context@ == "metadata"@ { ReplyView { meta_error: true, ..s } } else { s };
            if epoch != s.epoch {
                (t, OutcomeView::Skip)
            } else {
                (
                    ReplyView {
                        indexing: false,
                        band_error: t.band_error || context@ == "column band"@,
                        stats_error: t.stats_error || context@ == "column stats"@,
                        ..t
                    },
                    OutcomeView::Fault(context@ + ": "@ + first_line(message@)),
                )
            }
        },
        Reply::Schema { epoch, names } => if epoch != s.epoch {
            (s, OutcomeView::Skip)
        } else {
            let ns = names@.map_values(|n: String| n@);
            if ns == s.names {
                (s, OutcomeView::Keep)
            } else {
                (
                    ReplyView {
                        names: ns,
                        widths: Seq::new(ns.len(), |i: int| 12u16),
                        hidden: Seq::new(ns.len(), |i: int| false),
                        widths_fitted: false,
                        cursor_col: 0,
                        left_col: 0,
                        ..s
                    },
                    OutcomeView::Keep,
                )
            }
        },
        Reply::Page { epoch, max_row } => if epoch != s.epoch {
            (s, OutcomeView::Skip)
        } else {
            (clamped(s, max_row), OutcomeView::Keep)
        },
        Reply::Count { epoch, total } => if epoch != s.epoch {
            (s, OutcomeView::Skip)
        } else {
            (clamped(s, if total >= 1 { (total - 1) as u64 } else { 0 }), OutcomeView::Keep)
        },
        Reply::RowJson { epoch, row } => if epoch != s.epoch || s.record_row != Some(row) {
            (s, OutcomeView::Skip)
        } else {
            (s, OutcomeView::Keep)
        },
        Reply::Other { epoch } => if epoch != s.epoch {
            (s, OutcomeView::Skip)
        } else {
            (s, OutcomeView::Keep)
        },
    }
}

/// Gives `true` when two lists of names are the same, name by name.
fn same_names(a: &Vec<String>, b: &Vec<String>) -> (r: bool)
    ensures
        r == (a@.map_values(|n: String| n@) == b@.map_values(|n: String| n@)),
{
    if a.len() != b.len() {
        proof {
            assert(a@.map_values(|n: String| n@).len() != b@.map_values(|n: String| n@).len());
        }
        return false;
    }
    let mut i: usize = 0;
    while i < a.len()
        invariant
            i <= a@.len() == b@.len(),
            forall|k: int| 0 <= k < i ==> a@[k]@ == b@[k]@,
        decreases a@.len() - i,
    {
        if !crate::chars::same_str(a[i].as_str(), b[i].as_str()) {
            proof {
                assert(a@.map_values(|n: String| n@)[i as int] != b@.map_values(|n: String| n@)[i as int]);
            }
            return false;
        }
        i += 1;
    }
    assert(a@.map_values(|n: String| n@) =~= b@.map_values(|n: String| n@));
    true
}

/// Gives the first line of a message: refer to [`first_line`].
fn first_line_of(m: &str) -> (r: String)
    ensures
        r@ == first_line(m@),
{
    let cs = crate::chars::chars_of(m);
    let mut i: usize = 0;
    while i < cs.len() && cs[i] != '\n'
        invariant
            i <= cs@.len(),
            cs@ == m@,
            forall|k: int| 0 <= k < i ==> cs@[k] != '\n',
        decreases cs@.len() - i,
    {
        i += 1;
    }
    proof {
        m@.index_of_first_ensures('\n');
        if i < cs.len() {
            let f = m@.index_of_first('\n');
            if f is Some {
                let j = f->0;
                if j < i {
                    assert(cs@[j] != '\n');
                } else if j > i {
                    assert(m@[i as int] == '\n');
                }
            } else {
                assert(m@.contains('\n')) by {
                    assert(m@[i as int] == '\n');
                }
            }
        } else {
            assert(m@.take(i as int) =~= m@);
            if m@.index_of_first('\n') is Some {
                let j = m@.index_of_first('\n')->0;
                assert(cs@[j] != '\n');
            }
        }
    }
    let line = text_of(crate::chars::slice_of(&cs, 0, i).as_slice());
    proof {
        assert(m@.take(i as int) =~= m@.subrange(0, i as int));
    }
    let t = trimmed_chars(line.as_str());
    text_of(t.as_slice())
}

impl ReplyState {
    /// Takes an answer of the engine: refer to [`reply_step`].
    pub fn take(&mut self, r: Reply) -> (out: ReplyOutcome)
        requires
            old(self).top_row + old(self).viewport_rows + 1 <= u64::MAX,
        ensures
            (final(self)@, outcome_view(out)) == reply_step(old(self)@, r),
    {
        match r {
            Reply::Busy(b) => {
                let changed = self.busy != b;
                self.busy = b;
                if changed { ReplyOutcome::Draw } else { ReplyOutcome::Skip }
            },
            Reply::Indexed => {
                self.indexing = false;
                self.seekable = true;
                ReplyOutcome::Done("indexed — jumping is now instant")
            },
            Reply::Meta => ReplyOutcome::Keep,
            Reply::Error { epoch, context, message } => {
                if crate::chars::same_str(context.as_str(), "metadata") {
                    self.meta_error = true;
                }
                if epoch != self.epoch {
                    return ReplyOutcome::Skip;
                }
                self.indexing = false;
                if crate::chars::same_str(context.as_str(), "column band") {
                    self.band_error = true;
                }
                if crate::chars::same_str(context.as_str(), "column stats") {
                    self.stats_error = true;
                }
                let mut m = context.clone();
                m.append(": ");
                m.append(first_line_of(message.as_str()).as_str());
                ReplyOutcome::Fault(m)
            },
            Reply::Schema { epoch, names } => {
                if epoch != self.epoch {
                    return ReplyOutcome::Skip;
                }
                if same_names(&names, &self.names) {
                    return ReplyOutcome::Keep;
                }
                let n = names.len();
                let mut widths: Vec<u16> = Vec::new();
                let mut hidden: Vec<bool> = Vec::new();
                let mut i: usize = 0;
                while i < n
                    invariant
                        i <= n,
                        widths@ == Seq::new(i as nat, |k: int| 12u16),
                        hidden@ == Seq::new(i as nat, |k: int| false),
                    decreases n - i,
                {
                    widths.push(12);
                    hidden.push(false);
                    i += 1;
                    assert(widths@ =~= Seq::new(i as nat, |k: int| 12u16));
                    assert(hidden@ =~= Seq::new(i as nat, |k: int| false));
                }
                self.names = names;
                self.widths = widths;
                self.hidden = hidden;
                self.widths_fitted = false;
                self.cursor_col = 0;
                self.left_col = 0;
                ReplyOutcome::Keep
            },
            Reply::Page { epoch, max_row } => {
                if epoch != self.epoch {
                    return ReplyOutcome::Skip;
                }
                self.clamp(max_row);
                ReplyOutcome::Keep
            },
            Reply::Count { epoch, total } => {
                if epoch != self.epoch {
                    return ReplyOutcome::Skip;
                }
                self.clamp(total.saturating_sub(1));
                ReplyOutcome::Keep
            },
            Reply::RowJson { epoch, row } => {
                if epoch != self.epoch || self.record_row != Some(row) {
                    return ReplyOutcome::Skip;
                }
                ReplyOutcome::Keep
            },
            Reply::Other { epoch } => {
                if epoch != self.epoch {
                    return ReplyOutcome::Skip;
                }
                ReplyOutcome::Keep
            },
        }
    }

    fn clamp(&mut self, max_row: u64)
        requires
            old(self).top_row + old(self).viewport_rows + 1 <= u64::MAX,
        ensures
            final(self)@ == clamped(old(self)@, max_row),
    {
        if self.cursor_row > max_row {
            self.cursor_row = max_row;
            self.top_row = follow(max_row, self.top_row, self.viewport_rows);
        }
    }
}

/// An answer for a view that the user left changes nothing on the screen
/// and needs no frame, but for the index and the metadata, which describe
/// the file, and the fact that the metadata failed.
pub proof fn an_answer_for_a_view_left_behind_changes_nothing(s: ReplyView, r: Reply)
    requires
        reply_epoch(r) matches Some(e) && e != s.epoch,
        !(r matches Reply::Error { context, .. } && context@ == "metadata"@),
    ensures
        reply_step(s, r) == (s, OutcomeView::Skip),
{
}

} // verus!
