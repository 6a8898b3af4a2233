//! The step of a command on the grid: what a command of the table does to
//! the cursor, the window, the panels, the band, the widths and the hidden
//! columns, and what the program must do besides (open a box, show a
//! message, reload the view, or hand the command to the part of the library
//! that handles it).

use vstd::prelude::*;

use crate::app::{band_after, panel_after, step_of, Band, Mode, Panel, PromptKind, DEFAULT_STEP, MAX_STEP};
use crate::commands::Cmd;
use crate::cursor::{follow, followed_top, move_col, move_row, moved_col, moved_row};
use crate::chars::decimal;
use crate::view::{
    first_key, hidden_count, hidden_after, hide_column, narrow, narrowed, next_sort, show_all_columns, shown_columns,
    sort_after, visible_columns, widen, widened,
};

verus! {

/// The part of the state of the viewer that the commands of the grid change.
#[derive(Debug)]
pub struct GridState {
    pub cursor_row: u64,
    pub cursor_col: usize,
    pub top_row: u64,
    pub left_col: usize,
    pub panel: Panel,
    pub band: Band,
    /// `true` after a request for the band failed.
    pub band_error: bool,
    /// The width of each column of the schema.
    pub widths: Vec<u16>,
    /// Whether the grid hides each column of the schema.
    pub hidden: Vec<bool>,
    /// The position of the theme in the list of the themes.
    pub theme_idx: usize,
    /// `true` while the engine indexes a file of text.
    pub indexing: bool,
    /// The name of each column of the schema.
    pub columns: Vec<String>,
    /// The first key of the sort of the view: its column, and `true` when it
    /// sorts down. The grid sorts on one column at a time.
    pub sort: Option<(String, bool)>,
}

/// The facts of the viewer that a command reads and does not change.
#[derive(Clone, Copy, Debug)]
pub struct CommandContext {
    /// The rows of the grid on the screen.
    pub viewport_rows: u16,
    /// The last row that the cursor can reach, or `u64::MAX` while the rows
    /// are counted.
    pub max_row: u64,
    /// The step of the settings file.
    pub step: Option<usize>,
    /// The number of themes, one at the least.
    pub themes: usize,
    /// `true` while a query runs.
    pub busy: bool,
    /// `true` when the engine can jump to any row of the file.
    pub seekable: bool,
    /// `true` when the view is filtered.
    pub filtered: bool,
}

/// What the program must do after a command.
#[derive(Debug)]
pub enum Effect {
    /// Nothing more.
    Nothing,
    /// End the program.
    Quit,
    /// Open the box of this mode.
    Open(Mode),
    /// Open the prompt of this kind.
    Prompt(PromptKind),
    /// Stop the running query, and say "cancelled".
    CancelQuery,
    /// Show this message about the state of the viewer.
    Info(&'static str),
    /// Show this fault.
    Fault(&'static str),
    /// Show that a change happened, with this text.
    Done(String),
    /// Reload the view with the sort that the grid now holds.
    Sort,
    /// Remove the sort of the view and reload it.
    ClearSort,
    /// Remove the filter of the view and reload it.
    ClearFilter,
    /// Put the view back to the whole file, with no search, and reload it:
    /// the grid shows each column again. Then say "view reset".
    ResetView,
    /// Ask for what the panels on the screen need.
    Panels,
    /// Ask for what the panels need, and say which are on the screen.
    PanelsNamed(&'static str),
    /// Keep this mode of the band in the settings, and ask again for its
    /// facts.
    Band(Band),
    /// Say that the column is hidden, with the column of the cursor after
    /// it.
    Hidden(usize),
    /// Start to index the file of text, and say "indexing…".
    Index,
    /// Paint the screen with the theme at this position, and keep it.
    Theme(usize),
    /// The command belongs to another part of the library: the sort, the
    /// filters, the history of the views, the search, the record view, the
    /// cell inspector, the widths that fit the page, the clipboard and the
    /// settings page.
    Handle(Cmd),
}

/// An effect as values.
pub enum EffectView {
    Nothing,
    Quit,
    Open(Mode),
    Prompt(PromptKind),
    CancelQuery,
    Info(Seq<char>),
    Fault(Seq<char>),
    Done(Seq<char>),
    Sort,
    ClearSort,
    ClearFilter,
    ResetView,
    Panels,
    PanelsNamed(Seq<char>),
    Band(Band),
    Hidden(usize),
    Index,
    Theme(usize),
    Handle(Cmd),
}

/// The value of an effect.
pub open spec fn effect_view(e: Effect) -> EffectView {
    match e {
        Effect::Nothing => EffectView::Nothing,
        Effect::Quit => EffectView::Quit,
        Effect::Open(m) => EffectView::Open(m),
        Effect::Prompt(k) => EffectView::Prompt(k),
        Effect::CancelQuery => EffectView::CancelQuery,
        Effect::Info(m) => EffectView::Info(m@),
        Effect::Fault(m) => EffectView::Fault(m@),
        Effect::Done(m) => EffectView::Done(m@),
        Effect::Sort => EffectView::Sort,
        Effect::ClearSort => EffectView::ClearSort,
        Effect::ClearFilter => EffectView::ClearFilter,
        Effect::ResetView => EffectView::ResetView,
        Effect::Panels => EffectView::Panels,
        Effect::PanelsNamed(m) => EffectView::PanelsNamed(m@),
        Effect::Band(b) => EffectView::Band(b),
        Effect::Hidden(c) => EffectView::Hidden(c),
        Effect::Index => EffectView::Index,
        Effect::Theme(i) => EffectView::Theme(i),
        Effect::Handle(c) => EffectView::Handle(c),
    }
}

/// The state of the grid as values.
pub struct GridView {
    pub cursor_row: u64,
    pub cursor_col: usize,
    pub top_row: u64,
    pub left_col: usize,
    pub panel: Panel,
    pub band: Band,
    pub band_error: bool,
    pub widths: Seq<u16>,
    pub hidden: Seq<bool>,
    pub theme_idx: usize,
    pub indexing: bool,
    pub columns: Seq<Seq<char>>,
    pub sort: Option<(Seq<char>, bool)>,
}

/// The first key of a sort as values.
pub open spec fn key_view(k: Option<(String, bool)>) -> Option<(Seq<char>, bool)> {
    match k {
        Some((c, d)) => Some((c@, d)),
        None => None,
    }
}

impl View for GridState {
    type V = GridView;

    open spec fn view(&self) -> GridView {
        GridView {
            cursor_row: self.cursor_row,
            cursor_col: self.cursor_col,
            top_row: self.top_row,
            left_col: self.left_col,
            panel: self.panel,
            band: self.band,
            band_error: self.band_error,
            widths: self.widths@,
            hidden: self.hidden@,
            theme_idx: self.theme_idx,
            indexing: self.indexing,
            columns: self.columns@.map_values(|n: String| n@),
            sort: key_view(self.sort),
        }
    }
}

/// The message for a jump to the end while the rows are counted.
pub open spec fn counting() -> Seq<char> {
    "still counting — try again in a moment"@
}

/// The rows of the window on the screen, one at the least.
pub open spec fn window_rows(c: CommandContext) -> int {
    if c.viewport_rows >= 1 { c.viewport_rows as int } else { 1 }
}

/// The grid after a move of the cursor by `delta` rows: the cursor stops at
/// the first row and at the last one, and the window follows it.
pub open spec fn rows_moved(s: GridView, delta: i64, c: CommandContext) -> GridView {
    let row = moved_row(s.cursor_row, delta, c.max_row);
    GridView { cursor_row: row, top_row: followed_top(row, s.top_row, c.viewport_rows), ..s }
}

/// The grid after the cursor went to the row `row`, with the window that
/// follows it.
pub open spec fn row_set(s: GridView, row: u64, c: CommandContext) -> GridView {
    GridView { cursor_row: row, top_row: followed_top(row, s.top_row, c.viewport_rows), ..s }
}

/// The grid after a move of the cursor by `delta` columns among the columns
/// that it shows; with no column shown, nothing moves.
pub open spec fn cols_moved(s: GridView, delta: i64) -> GridView {
    match moved_col(shown_columns(s.hidden), s.cursor_col, delta) {
        Some(c) => GridView { cursor_col: c, ..s },
        None => s,
    }
}

/// The number of rows or columns of a move of the kind `cmd`.
pub open spec fn move_size(cmd: Cmd, c: CommandContext) -> int {
    let half: int = if window_rows(c) / 2 >= 1 { window_rows(c) / 2 } else { 1 };
    match cmd {
        Cmd::RowDown | Cmd::RowUp | Cmd::ColRight | Cmd::ColLeft => 1,
        Cmd::PageDown | Cmd::PageUp => window_rows(c),
        Cmd::HalfPageDown | Cmd::HalfPageUp => half,
        _ => match c.step {
            Some(v) => if v < 1 { 1 } else if v > MAX_STEP { MAX_STEP as int } else { v as int },
            None => DEFAULT_STEP as int,
        },
    }
}

/// What a command does to the grid, and what the program must do besides.
///
/// The moves of the rows stop at the first and the last row and the window
/// follows the cursor; the moves of the columns skip the hidden columns. A
/// jump to the end waits for the count of the rows. `Esc` stops a running
/// query, or else closes the panels. The keys `m` and `i` add or remove one
/// panel and keep the other, `M` moves through the four states of the panels
/// and names the new one, and `d` moves through the modes of the band and
/// asks again for its facts after a failure. `>` and `<` change the width of
/// the column of the cursor. `x` hides the column of the cursor, but never
/// the last column that the grid shows, and `X` shows each column again. A
/// clear of the sort or of the filter says so when there is nothing to
/// clear. `s` sorts on the column of the cursor: up, then down, then not at
/// all, and a column other than the sorted one starts at up; past the last
/// column it does nothing. `I` indexes a file of text once. `t` moves to the
/// next theme.
pub open spec fn command_step(s: GridView, cmd: Cmd, c: CommandContext) -> (GridView, EffectView) {
    let n: int = s.hidden.len() as int;
    match cmd {
        Cmd::Quit => (s, EffectView::Quit),
        Cmd::Help => (s, EffectView::Open(Mode::Help)),
        Cmd::Palette => (s, EffectView::Open(Mode::Palette)),
        Cmd::Cancel => if c.busy {
            (s, EffectView::CancelQuery)
        } else {
            (GridView { panel: Panel::Nothing, ..s }, EffectView::Nothing)
        },
        Cmd::RowDown | Cmd::PageDown | Cmd::HalfPageDown | Cmd::StepDown => (
            rows_moved(s, move_size(cmd, c) as i64, c),
            EffectView::Nothing,
        ),
        Cmd::RowUp | Cmd::PageUp | Cmd::HalfPageUp | Cmd::StepUp => (
            rows_moved(s, (-move_size(cmd, c)) as i64, c),
            EffectView::Nothing,
        ),
        Cmd::ColRight | Cmd::StepRight => (cols_moved(s, move_size(cmd, c) as i64), EffectView::Nothing),
        Cmd::ColLeft | Cmd::StepLeft => (cols_moved(s, (-move_size(cmd, c)) as i64), EffectView::Nothing),
        Cmd::Top => (row_set(s, 0, c), EffectView::Nothing),
        Cmd::Bottom => if c.max_row == u64::MAX {
            (s, EffectView::Info(counting()))
        } else {
            (row_set(s, c.max_row, c), EffectView::Nothing)
        },
        Cmd::ColFirst => (cols_moved(s, (-n) as i64), EffectView::Nothing),
        Cmd::ColLast => (cols_moved(s, n as i64), EffectView::Nothing),
        Cmd::Origin => (
            cols_moved(GridView { cursor_row: 0, top_row: 0, left_col: 0, ..s }, (-n) as i64),
            EffectView::Nothing,
        ),
        Cmd::LastCell => if c.max_row == u64::MAX {
            (s, EffectView::Info(counting()))
        } else {
            (row_set(cols_moved(s, n as i64), c.max_row, c), EffectView::Nothing)
        },
        Cmd::GotoRow => (s, EffectView::Prompt(PromptKind::Goto)),
        Cmd::SortCycle => if s.cursor_col < s.columns.len() {
            let name = s.columns[s.cursor_col as int];
            (GridView { sort: first_key(name, sort_after(s.sort, name)), ..s }, EffectView::Sort)
        } else {
            (s, EffectView::Nothing)
        },
        Cmd::SortClear => match s.sort {
            Some(_) => (GridView { sort: None, ..s }, EffectView::ClearSort),
            None => (s, EffectView::Info("not sorted"@)),
        },
        Cmd::Filter => (s, EffectView::Prompt(PromptKind::Filter)),
        Cmd::FilterClear => (
            s,
            if c.filtered { EffectView::ClearFilter } else { EffectView::Info("no filter set"@) },
        ),
        Cmd::Sql => (s, EffectView::Prompt(PromptKind::Sql)),
        Cmd::ResetView => (GridView { hidden: Seq::new(s.hidden.len(), |i: int| false), ..s }, EffectView::ResetView),
        Cmd::Search => (s, EffectView::Prompt(PromptKind::Search)),
        Cmd::ToggleMeta => (GridView { panel: s.panel.spec_toggled_meta(), ..s }, EffectView::Panels),
        Cmd::ToggleStats => (GridView { panel: s.panel.spec_toggled_stats(), ..s }, EffectView::Panels),
        Cmd::CyclePanels => {
            let p = panel_after(s.panel);
            (
                GridView { panel: p, ..s },
                EffectView::PanelsNamed(
                    match p {
                        Panel::Nothing => "no panel"@,
                        Panel::Meta => "metadata"@,
                        Panel::Stats => "column statistics"@,
                        Panel::Both => "metadata and statistics"@,
                    },
                ),
            )
        },
        Cmd::CycleBand => {
            let b = band_after(s.band);
            (GridView { band: b, band_error: false, ..s }, EffectView::Band(b))
        },
        Cmd::Widen => if s.cursor_col < s.widths.len() {
            (GridView { widths: s.widths.update(s.cursor_col as int, widened(s.widths[s.cursor_col as int])), ..s }, EffectView::Nothing)
        } else {
            (s, EffectView::Nothing)
        },
        Cmd::Narrow => if s.cursor_col < s.widths.len() {
            (GridView { widths: s.widths.update(s.cursor_col as int, narrowed(s.widths[s.cursor_col as int])), ..s }, EffectView::Nothing)
        } else {
            (s, EffectView::Nothing)
        },
        Cmd::HideColumn => match hidden_after(s.hidden, s.cursor_col) {
            Ok((now, col)) => (GridView { hidden: now, cursor_col: col, ..s }, EffectView::Hidden(col)),
            Err(m) => (s, EffectView::Fault(m)),
        },
        Cmd::ShowAllColumns => (
            GridView { hidden: Seq::new(s.hidden.len(), |i: int| false), ..s },
            EffectView::Done(decimal(hidden_count(s.hidden, s.hidden.len())) + " column(s) shown"@),
        ),
        Cmd::IndexCsv => if c.seekable {
            (s, EffectView::Info("already random-access"@))
        } else if s.indexing {
            (s, EffectView::Info("already indexing"@))
        } else {
            (GridView { indexing: true, ..s }, EffectView::Index)
        },
        Cmd::ThemeNext => {
            let i = ((s.theme_idx + 1) % (c.themes as int)) as usize;
            (GridView { theme_idx: i, ..s }, EffectView::Theme(i))
        },
        Cmd::ThemePicker => (s, EffectView::Open(Mode::ThemePicker)),
        _ => (s, EffectView::Handle(cmd)),
    }
}

/// Whether a command moves the cursor among the rows.
pub open spec fn moves_rows(cmd: Cmd) -> bool {
    match cmd {
        Cmd::RowDown | Cmd::RowUp | Cmd::PageDown | Cmd::PageUp | Cmd::HalfPageDown | Cmd::HalfPageUp
        | Cmd::StepDown | Cmd::StepUp | Cmd::Top | Cmd::Bottom | Cmd::LastCell => true,
        _ => false,
    }
}

/// Gives what a command needs before it runs: for `t`, a theme to move to;
/// for a move among the rows, a window that fits below the largest row; for
/// a move to the first column, a list of columns that `-n` can count; for
/// `>`, a width that it can widen; and for `x`, a column of the cursor that
/// it can hide. Each other command can always run.
pub open spec fn command_ready(s: GridView, cmd: Cmd, c: CommandContext) -> bool {
    &&& cmd == Cmd::ThemeNext ==> c.themes >= 1 && s.theme_idx < usize::MAX
    &&& moves_rows(cmd) ==> s.top_row + c.viewport_rows + 1 <= u64::MAX
    &&& (cmd == Cmd::ColFirst || cmd == Cmd::Origin) ==> s.hidden.len() <= i64::MAX
    &&& (cmd == Cmd::Widen && s.cursor_col < s.widths.len()) ==> s.widths[s.cursor_col as int] + 4 <= u16::MAX
    &&& (cmd == Cmd::HideColumn && shown_columns(s.hidden).len() > 1) ==> s.cursor_col < s.hidden.len()
}

impl GridState {
    fn move_rows(&mut self, delta: i64, c: &CommandContext)
        requires
            old(self).top_row + c.viewport_rows + 1 <= u64::MAX,
        ensures
            final(self)@ == rows_moved(old(self)@, delta, *c),
    {
        let row = move_row(self.cursor_row, delta, c.max_row);
        self.top_row = follow(row, self.top_row, c.viewport_rows);
        self.cursor_row = row;
    }

    fn set_row(&mut self, row: u64, c: &CommandContext)
        requires
            old(self).top_row + c.viewport_rows + 1 <= u64::MAX,
        ensures
            final(self)@ == row_set(old(self)@, row, *c),
    {
        self.top_row = follow(row, self.top_row, c.viewport_rows);
        self.cursor_row = row;
    }

    fn move_cols(&mut self, delta: i64)
        ensures
            final(self)@ == cols_moved(old(self)@, delta),
    {
        let vis = visible_columns(&self.hidden);
        match move_col(&vis, self.cursor_col, delta) {
            Some(c) => self.cursor_col = c,
            None => {},
        }
    }

    /// The key `s`: refer to [`command_step`].
    fn cycle_sort(&mut self, c: &CommandContext) -> (r: Effect)
        ensures
            (final(self)@, effect_view(r)) == command_step(old(self)@, Cmd::SortCycle, *c),
    {
        if self.cursor_col >= self.columns.len() {
            return Effect::Nothing;
        }
        let name = self.columns[self.cursor_col].clone();
        let first = match &self.sort {
            Some((k, d)) => Some((k.as_str(), *d)),
            None => None,
        };
        let next = next_sort(first, name.as_str());
        self.sort = match next {
            Some(d) => Some((name, d)),
            None => None,
        };
        Effect::Sort
    }

    /// The key `S`: refer to [`command_step`].
    fn clear_sort(&mut self, c: &CommandContext) -> (r: Effect)
        ensures
            (final(self)@, effect_view(r)) == command_step(old(self)@, Cmd::SortClear, *c),
    {
        if self.sort.is_some() {
            self.sort = None;
            Effect::ClearSort
        } else {
            Effect::Info("not sorted")
        }
    }

    /// Runs one command of the grid: refer to [`command_step`].
    #[verifier::rlimit(60)]
    #[verifier::spinoff_prover]
    pub fn run(&mut self, cmd: Cmd, c: &CommandContext) -> (r: Effect)
        requires
            command_ready(old(self)@, cmd, *c),
        ensures
            (final(self)@, effect_view(r)) == command_step(old(self)@, cmd, *c),
    {
        let vis_rows: i64 = if c.viewport_rows >= 1 { c.viewport_rows as i64 } else { 1 };
        let half: i64 = if vis_rows / 2 >= 1 { vis_rows / 2 } else { 1 };
        let step = step_of(c.step);
        let n = self.hidden.len() as i64;
        match cmd {
            Cmd::Quit => Effect::Quit,
            Cmd::Help => Effect::Open(Mode::Help),
            Cmd::Palette => Effect::Open(Mode::Palette),
            Cmd::Cancel => {
                if c.busy {
                    Effect::CancelQuery
                } else {
                    self.panel = Panel::Nothing;
                    Effect::Nothing
                }
            },
            Cmd::RowDown => { self.move_rows(1, c); Effect::Nothing },
            Cmd::RowUp => { self.move_rows(-1, c); Effect::Nothing },
            Cmd::PageDown => { self.move_rows(vis_rows, c); Effect::Nothing },
            Cmd::PageUp => { self.move_rows(-vis_rows, c); Effect::Nothing },
            Cmd::HalfPageDown => { self.move_rows(half, c); Effect::Nothing },
            Cmd::HalfPageUp => { self.move_rows(-half, c); Effect::Nothing },
            Cmd::StepDown => { self.move_rows(step, c); Effect::Nothing },
            Cmd::StepUp => { self.move_rows(-step, c); Effect::Nothing },
            Cmd::StepRight => { self.move_cols(step); Effect::Nothing },
            Cmd::StepLeft => { self.move_cols(-step); Effect::Nothing },
            Cmd::ColRight => { self.move_cols(1); Effect::Nothing },
            Cmd::ColLeft => { self.move_cols(-1); Effect::Nothing },
            Cmd::Top => { self.set_row(0, c); Effect::Nothing },
            Cmd::Bottom => {
                if c.max_row == u64::MAX {
                    Effect::Info("still counting — try again in a moment")
                } else {
                    self.set_row(c.max_row, c);
                    Effect::Nothing
                }
            },
            Cmd::ColFirst => { self.move_cols(-n); Effect::Nothing },
            Cmd::ColLast => { self.move_cols(n); Effect::Nothing },
            Cmd::Origin => {
                self.cursor_row = 0;
                self.top_row = 0;
                self.left_col = 0;
                self.move_cols(-n);
                Effect::Nothing
            },
            Cmd::LastCell => {
                if c.max_row == u64::MAX {
                    return Effect::Info("still counting — try again in a moment");
                }
                self.move_cols(n);
                self.set_row(c.max_row, c);
                Effect::Nothing
            },
            Cmd::GotoRow => Effect::Prompt(PromptKind::Goto),
            Cmd::SortCycle => self.cycle_sort(c),
            Cmd::SortClear => self.clear_sort(c),
            Cmd::Filter => Effect::Prompt(PromptKind::Filter),
            Cmd::FilterClear => if c.filtered { Effect::ClearFilter } else { Effect::Info("no filter set") },
            Cmd::Sql => Effect::Prompt(PromptKind::Sql),
            Cmd::ResetView => {
                let _ = show_all_columns(&mut self.hidden);
                proof {
                    assert(self.hidden@ =~= Seq::new(old(self)@.hidden.len(), |i: int| false));
                }
                Effect::ResetView
            },
            Cmd::Search => Effect::Prompt(PromptKind::Search),
            Cmd::ToggleMeta => { self.panel = self.panel.toggled_meta(); Effect::Panels },
            Cmd::ToggleStats => { self.panel = self.panel.toggled_stats(); Effect::Panels },
            Cmd::CyclePanels => {
                self.panel = self.panel.next();
                Effect::PanelsNamed(self.panel.spoken())
            },
            Cmd::CycleBand => {
                let b = self.band.next();
                self.band = b;
                self.band_error = false;
                Effect::Band(b)
            },
            Cmd::Widen => {
                if self.cursor_col < self.widths.len() {
                    let w = widen(self.widths[self.cursor_col]);
                    self.widths.set(self.cursor_col, w);
                }
                Effect::Nothing
            },
            Cmd::Narrow => {
                if self.cursor_col < self.widths.len() {
                    let w = narrow(self.widths[self.cursor_col]);
                    self.widths.set(self.cursor_col, w);
                }
                Effect::Nothing
            },
            Cmd::HideColumn => {
                let vis = visible_columns(&self.hidden);
                if vis.len() <= 1 {
                    return Effect::Fault("cannot hide the last visible column");
                }
                match hide_column(&mut self.hidden, self.cursor_col) {
                    Ok(col) => {
                        self.cursor_col = col;
                        Effect::Hidden(col)
                    },
                    Err(m) => Effect::Fault(m),
                }
            },
            Cmd::ShowAllColumns => {
                let m = show_all_columns(&mut self.hidden);
                proof {
                    assert(self.hidden@ =~= Seq::new(old(self)@.hidden.len(), |i: int| false));
                }
                Effect::Done(m)
            },
            Cmd::IndexCsv => {
                if c.seekable {
                    Effect::Info("already random-access")
                } else if self.indexing {
                    Effect::Info("already indexing")
                } else {
                    self.indexing = true;
                    Effect::Index
                }
            },
            Cmd::ThemeNext => {
                let i = (self.theme_idx + 1) % c.themes;
                self.theme_idx = i;
                Effect::Theme(i)
            },
            Cmd::ThemePicker => Effect::Open(Mode::ThemePicker),
            _ => Effect::Handle(cmd),
        }
    }
}


/// The keys `m` and `i` run in any state of the grid. `m` adds or removes the
/// metadata and keeps the statistics as they are, `i` does the same for the
/// statistics, a second press of the same key puts the panels back, and
/// neither key changes anything else in the grid.
pub proof fn a_panel_key_runs_and_changes_its_own_panel_only(s: GridView, c: CommandContext)
    ensures
        command_ready(s, Cmd::ToggleMeta, c),
        command_ready(s, Cmd::ToggleStats, c),
        command_step(s, Cmd::ToggleMeta, c).0.panel.shows_meta() == !s.panel.shows_meta(),
        command_step(s, Cmd::ToggleMeta, c).0.panel.shows_stats() == s.panel.shows_stats(),
        command_step(s, Cmd::ToggleStats, c).0.panel.shows_stats() == !s.panel.shows_stats(),
        command_step(s, Cmd::ToggleStats, c).0.panel.shows_meta() == s.panel.shows_meta(),
        command_step(command_step(s, Cmd::ToggleMeta, c).0, Cmd::ToggleMeta, c).0 == s,
        command_step(command_step(s, Cmd::ToggleStats, c).0, Cmd::ToggleStats, c).0 == s,
        command_step(s, Cmd::ToggleMeta, c).0 == (GridView { panel: command_step(s, Cmd::ToggleMeta, c).0.panel, ..s }),
        command_step(s, Cmd::ToggleStats, c).0 == (GridView { panel: command_step(s, Cmd::ToggleStats, c).0.panel, ..s }),
{
    crate::app::a_panel_key_changes_its_own_panel_only(s.panel);
}

/// The key `s` on the column of the cursor: from a view that is not sorted
/// on that column, three presses sort it up, then down, then not at all, and
/// a fourth press sorts it up again. The sort never holds another column.
/// With the cursor past the last column, the key changes nothing.
pub proof fn three_sort_presses_come_back(s: GridView, c: CommandContext)
    ensures
        s.cursor_col >= s.columns.len() ==> command_step(s, Cmd::SortCycle, c) == (s, EffectView::Nothing),
        s.cursor_col < s.columns.len() && (s.sort matches Some((k, _)) ==> k != s.columns[s.cursor_col as int]) ==> ({
            let name = s.columns[s.cursor_col as int];
            let one = command_step(s, Cmd::SortCycle, c).0;
            let two = command_step(one, Cmd::SortCycle, c).0;
            let three = command_step(two, Cmd::SortCycle, c).0;
            let four = command_step(three, Cmd::SortCycle, c).0;
            &&& one.sort == Some((name, false))
            &&& two.sort == Some((name, true))
            &&& three.sort is None
            &&& four.sort == Some((name, false))
            &&& four == one
        }),
{
}

} // verus!
