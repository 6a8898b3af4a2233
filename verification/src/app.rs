//! The state of the application that needs no engine: the modes, the
//! settings, the side panels, the detail band, the positions of the grid and of
//! the overlays on the screen, the double click, and the completion of names.

use vstd::prelude::*;

use crate::chars::{
    ascii_lowered, chars_of, decimal, decimal_text, lower_text, lowercase_text, lower_each, same_text, text_of_range, trimmed,
    trimmed_ascii_lower, white_space,
};
use crate::keys::{KeyCode, KeyEvent, MouseButton, MouseEvent, MouseEventKind};
use std::time::Instant;

verus! {

broadcast use vstd::string::group_string_axioms;

/// A box on the screen: its left column, its top row, its width and its
/// height, in cells of the terminal.
#[derive(Clone, Copy, Debug, PartialEq, Eq, Structural)]
pub struct Rect {
    pub x: u16,
    pub y: u16,
    pub width: u16,
    pub height: u16,
}

impl Rect {
    /// Makes a box. The width and the height shrink so that the box stays
    /// inside the 16-bit range of the terminal.
    pub fn new(x: u16, y: u16, width: u16, height: u16) -> (r: Rect)
        ensures
            r.x == x,
            r.y == y,
            r.width == if width > u16::MAX - x { (u16::MAX - x) as u16 } else { width },
            r.height == if height > u16::MAX - y { (u16::MAX - y) as u16 } else { height },
            r.valid(),
    {
        let max_w = u16::MAX - x;
        let max_h = u16::MAX - y;
        Rect {
            x,
            y,
            width: if width > max_w { max_w } else { width },
            height: if height > max_h { max_h } else { height },
        }
    }

    /// Gives `true` when the box lies inside the 16-bit range of the
    /// terminal, as each box that the terminal library makes does.
    pub open spec fn valid(self) -> bool {
        self.x + self.width <= u16::MAX && self.y + self.height <= u16::MAX
    }

    /// The first column after the box.
    pub open spec fn spec_right(self) -> u16 {
        if self.x + self.width > u16::MAX { u16::MAX } else { (self.x + self.width) as u16 }
    }

    /// The first row after the box.
    pub open spec fn spec_bottom(self) -> u16 {
        if self.y + self.height > u16::MAX { u16::MAX } else { (self.y + self.height) as u16 }
    }

    /// Gives the first column after the box.
    #[verifier::when_used_as_spec(spec_right)]
    pub fn right(self) -> (r: u16)
        ensures
            r == self.spec_right(),
    {
        self.x.saturating_add(self.width)
    }

    /// Gives the first row after the box.
    #[verifier::when_used_as_spec(spec_bottom)]
    pub fn bottom(self) -> (r: u16)
        ensures
            r == self.spec_bottom(),
    {
        self.y.saturating_add(self.height)
    }
}

/// The kind of text that the prompt asks the user for.
#[derive(Clone, Copy, Debug, PartialEq, Eq, Structural)]
pub enum PromptKind {
    /// A `WHERE` expression.
    Filter,
    /// A complete SQL statement.
    Sql,
    /// A value to search for.
    Search,
    /// A row number to move to.
    Goto,
}

impl PromptKind {
    /// Gives the word that the prompt shows in front of the text.
    pub fn label(self) -> (r: &'static str)
        ensures
            r@ == match self {
                PromptKind::Filter => "filter"@,
                PromptKind::Sql => "sql"@,
                PromptKind::Search => "search"@,
                PromptKind::Goto => "row"@,
            },
    {
        match self {
            PromptKind::Filter => "filter",
            PromptKind::Sql => "sql",
            PromptKind::Search => "search",
            PromptKind::Goto => "row",
        }
    }
}

/// What the keys do now.
#[derive(Clone, Copy, Debug, PartialEq, Eq, Structural)]
pub enum Mode {
    /// The grid has the focus.
    Normal,
    /// The prompt has the focus.
    Prompt(PromptKind),
    /// The help overlay is open.
    Help,
    /// The command palette is open.
    Palette,
    /// The theme picker is open.
    ThemePicker,
    /// The cell inspector is open.
    Cell,
    /// The record view is open. It shows one row from the top to the bottom.
    Record,
    /// The filter builder is open.
    FilterBuild,
    /// The settings page is open.
    Settings,
}

/// One setting that the settings page can change.
///
/// The list is short on purpose. A setting belongs here when a user changes it
/// for each file, or when the machine decides the right value for it.
#[derive(Clone, Copy, Debug, PartialEq, Eq, Structural)]
pub enum Setting {
    /// The colors.
    Theme,
    /// The number of threads that DuckDB can use.
    Threads,
    /// The memory that DuckDB can use before it writes to the disk.
    MemoryLimit,
    /// The rows that the sniffer of a file of text examines.
    SampleSize,
    /// Whether the viewer indexes a file of text when it opens the file.
    NoIndex,
    /// The panels that stay at the side of the grid.
    Panels,
    /// The rows of facts under the column names.
    Band,
    /// The number of rows or columns that one step moves.
    Step,
}

impl Setting {
    /// Each setting, in the order that the page shows them.
    pub fn all() -> (r: Vec<Setting>)
        ensures
            r@ == seq![
                Setting::Theme,
                Setting::Threads,
                Setting::MemoryLimit,
                Setting::SampleSize,
                Setting::NoIndex,
                Setting::Panels,
                Setting::Band,
                Setting::Step,
            ],
    {
        let r = vec![
            Setting::Theme,
            Setting::Threads,
            Setting::MemoryLimit,
            Setting::SampleSize,
            Setting::NoIndex,
            Setting::Panels,
            Setting::Band,
            Setting::Step,
        ];
        assert(r@ =~= seq![
            Setting::Theme,
            Setting::Threads,
            Setting::MemoryLimit,
            Setting::SampleSize,
            Setting::NoIndex,
            Setting::Panels,
            Setting::Band,
            Setting::Step,
        ]);
        r
    }

    /// The name that the page shows.
    pub open spec fn spec_label(self) -> Seq<char> {
        match self {
            Setting::Theme => "theme"@,
            Setting::Threads => "threads"@,
            Setting::MemoryLimit => "memory limit"@,
            Setting::SampleSize => "sample size"@,
            Setting::NoIndex => "index at open"@,
            Setting::Panels => "panels"@,
            Setting::Band => "column details"@,
            Setting::Step => "step"@,
        }
    }

    /// Gives the name that the page shows.
    pub fn label(self) -> (r: &'static str)
        ensures
            r@ == self.spec_label(),
    {
        match self {
            Setting::Theme => "theme",
            Setting::Threads => "threads",
            Setting::MemoryLimit => "memory limit",
            Setting::SampleSize => "sample size",
            Setting::NoIndex => "index at open",
            Setting::Panels => "panels",
            Setting::Band => "column details",
            Setting::Step => "step",
        }
    }

    /// What the setting does, in one line.
    pub fn help(self) -> (r: &'static str)
        ensures
            r@ == match self {
                Setting::Theme => "the colors. T also opens the picker"@,
                Setting::Threads => "threads for DuckDB. Empty means one for each core"@,
                Setting::MemoryLimit => "such as 4GB, before DuckDB writes to the disk"@,
                Setting::SampleSize => "rows the sniffer reads. -1 reads the whole file"@,
                Setting::NoIndex => "index a file of text at the start, for instant jumps"@,
                Setting::Panels => "keep at the side: none, meta, stats or both"@,
                Setting::Band => "rows under the headers: off, compact or detailed. d cycles"@,
                Setting::Step => "rows or columns that J, K, H and L move"@,
            },
    {
        match self {
            Setting::Theme => "the colors. T also opens the picker",
            Setting::Threads => "threads for DuckDB. Empty means one for each core",
            Setting::MemoryLimit => "such as 4GB, before DuckDB writes to the disk",
            Setting::SampleSize => "rows the sniffer reads. -1 reads the whole file",
            Setting::NoIndex => "index a file of text at the start, for instant jumps",
            Setting::Panels => "keep at the side: none, meta, stats or both",
            Setting::Band => "rows under the headers: off, compact or detailed. d cycles",
            Setting::Step => "rows or columns that J, K, H and L move",
        }
    }

    /// Gives `true` when a change takes effect at the next file, and not now.
    ///
    /// DuckDB changes its threads and its memory while it runs. The sniffer
    /// and the index do their work when a file opens, so a change to them
    /// cannot reach the file that is open already.
    pub fn at_next_file(self) -> (r: bool)
        ensures
            r == (self == Setting::SampleSize || self == Setting::NoIndex),
    {
        match self {
            Setting::SampleSize | Setting::NoIndex => true,
            _ => false,
        }
    }
}

/// The step that the filter builder is at.
///
/// The builder is a small machine. The user starts at the list, adds a
/// condition through the steps, and comes back to the list.
#[derive(Clone, Copy, Debug, PartialEq, Eq, Structural)]
pub enum Build {
    /// The list of the conditions.
    List,
    /// The user chooses a column.
    Column,
    /// The user chooses an operator.
    Op,
    /// The user types the value.
    Value,
    /// The user types the second value of a `between` condition.
    Value2,
    /// The user types one condition as a `WHERE` expression.
    Raw,
}

/// The panel at the side of the grid, or below it.
#[derive(Clone, Copy, Debug, PartialEq, Eq, Structural)]
pub enum Panel {
    /// No panel is open.
    Nothing,
    /// The metadata panel is open.
    Meta,
    /// The column statistics panel is open.
    Stats,
    /// Both panels are open, one above the other.
    Both,
}

/// The name of a panel in the settings file.
pub open spec fn panel_name(p: Panel) -> Seq<char> {
    match p {
        Panel::Nothing => "none"@,
        Panel::Meta => "meta"@,
        Panel::Stats => "stats"@,
        Panel::Both => "both"@,
    }
}

/// The panel that follows another one on the key that moves through the
/// four.
pub open spec fn panel_after(p: Panel) -> Panel {
    match p {
        Panel::Nothing => Panel::Meta,
        Panel::Meta => Panel::Stats,
        Panel::Stats => Panel::Both,
        Panel::Both => Panel::Nothing,
    }
}

impl Default for Panel {
    /// No panel.
    fn default() -> (r: Panel)
        ensures
            r == Panel::Nothing,
    {
        Panel::Nothing
    }
}

/// The panel that a name of the settings file gives, once the name is
/// trimmed and in small letters.
pub open spec fn panel_named(t: Seq<char>) -> Option<Panel> {
    if t == "none"@ || t == ""@ {
        Some(Panel::Nothing)
    } else if t == "meta"@ || t == "metadata"@ {
        Some(Panel::Meta)
    } else if t == "stats"@ || t == "statistics"@ {
        Some(Panel::Stats)
    } else if t == "both"@ {
        Some(Panel::Both)
    } else {
        None
    }
}

impl Panel {
    /// Reads a panel from the name that the settings file holds. The name may
    /// have white space at its ends and capital letters.
    pub fn parse(s: &str) -> (r: Option<Panel>)
        ensures
            r == panel_named(ascii_lowered(trimmed(s@))),
    {
        let t = trimmed_ascii_lower(s);
        if same_text(&t, "none") || same_text(&t, "") {
            Some(Panel::Nothing)
        } else if same_text(&t, "meta") || same_text(&t, "metadata") {
            Some(Panel::Meta)
        } else if same_text(&t, "stats") || same_text(&t, "statistics") {
            Some(Panel::Stats)
        } else if same_text(&t, "both") {
            Some(Panel::Both)
        } else {
            None
        }
    }

    /// Whether the metadata is on the screen.
    pub open spec fn shows_meta(self) -> bool {
        self == Panel::Meta || self == Panel::Both
    }

    /// Whether the statistics of the column are on the screen.
    pub open spec fn shows_stats(self) -> bool {
        self == Panel::Stats || self == Panel::Both
    }

    /// Gives `true` when the metadata is on the screen.
    pub fn has_meta(self) -> (r: bool)
        ensures
            r == (self == Panel::Meta || self == Panel::Both),
    {
        match self {
            Panel::Meta | Panel::Both => true,
            _ => false,
        }
    }

    /// Gives `true` when the statistics of the column are on the screen.
    pub fn has_stats(self) -> (r: bool)
        ensures
            r == (self == Panel::Stats || self == Panel::Both),
    {
        match self {
            Panel::Stats | Panel::Both => true,
            _ => false,
        }
    }

    /// Gives the name that the settings file holds.
    pub fn name(self) -> (r: &'static str)
        ensures
            r@ == panel_name(self),
    {
        match self {
            Panel::Nothing => "none",
            Panel::Meta => "meta",
            Panel::Stats => "stats",
            Panel::Both => "both",
        }
    }

    /// The panels after the key `m`: the metadata comes or goes, and the
    /// statistics stay as they are.
    pub open spec fn spec_toggled_meta(self) -> Panel {
        match self {
            Panel::Meta => Panel::Nothing,
            Panel::Both => Panel::Stats,
            Panel::Stats => Panel::Both,
            Panel::Nothing => Panel::Meta,
        }
    }

    /// The panels after the key `i`: the statistics come or go, and the
    /// metadata stays as it is.
    pub open spec fn spec_toggled_stats(self) -> Panel {
        match self {
            Panel::Stats => Panel::Nothing,
            Panel::Both => Panel::Meta,
            Panel::Meta => Panel::Both,
            Panel::Nothing => Panel::Stats,
        }
    }

    /// Gives the panels after the key `m`: refer to
    /// [`spec_toggled_meta`](Self::spec_toggled_meta).
    pub fn toggled_meta(self) -> (r: Panel)
        ensures
            r == self.spec_toggled_meta(),
    {
        match self {
            Panel::Meta => Panel::Nothing,
            Panel::Both => Panel::Stats,
            Panel::Stats => Panel::Both,
            Panel::Nothing => Panel::Meta,
        }
    }

    /// Gives the panels after the key `i`: refer to
    /// [`spec_toggled_stats`](Self::spec_toggled_stats).
    pub fn toggled_stats(self) -> (r: Panel)
        ensures
            r == self.spec_toggled_stats(),
    {
        match self {
            Panel::Stats => Panel::Nothing,
            Panel::Both => Panel::Meta,
            Panel::Meta => Panel::Both,
            Panel::Nothing => Panel::Stats,
        }
    }

    /// Gives the words that say which panels are on the screen.
    pub fn spoken(self) -> (r: &'static str)
        ensures
            r@ == match self {
                Panel::Nothing => "no panel"@,
                Panel::Meta => "metadata"@,
                Panel::Stats => "column statistics"@,
                Panel::Both => "metadata and statistics"@,
            },
    {
        match self {
            Panel::Nothing => "no panel",
            Panel::Meta => "metadata",
            Panel::Stats => "column statistics",
            Panel::Both => "metadata and statistics",
        }
    }

    /// Gives the next panel, for a key that moves through the four.
    pub fn next(self) -> (r: Panel)
        ensures
            r == panel_after(self),
    {
        match self {
            Panel::Nothing => Panel::Meta,
            Panel::Meta => Panel::Stats,
            Panel::Stats => Panel::Both,
            Panel::Both => Panel::Nothing,
        }
    }
}

/// The key `m` adds or removes the metadata and keeps the statistics as they
/// are, the key `i` does the same for the statistics, and a second press of
/// either key puts the panels back.
pub proof fn a_panel_key_changes_its_own_panel_only(p: Panel)
    ensures
        (p.spec_toggled_meta() == Panel::Meta || p.spec_toggled_meta() == Panel::Both) != (p == Panel::Meta
            || p == Panel::Both),
        (p.spec_toggled_meta() == Panel::Stats || p.spec_toggled_meta() == Panel::Both) == (p == Panel::Stats
            || p == Panel::Both),
        (p.spec_toggled_stats() == Panel::Stats || p.spec_toggled_stats() == Panel::Both) != (p == Panel::Stats
            || p == Panel::Both),
        (p.spec_toggled_stats() == Panel::Meta || p.spec_toggled_stats() == Panel::Both) == (p == Panel::Meta
            || p == Panel::Both),
        p.spec_toggled_meta().spec_toggled_meta() == p,
        p.spec_toggled_stats().spec_toggled_stats() == p,
{
}

/// The rows of facts that the grid draws between the column names and the
/// first row of data.
///
/// The band answers the first question about a file: what is in each column?
/// The statistics panel answers it for one column at a time, and it stays at
/// the side. The band answers it for every column that is on the screen.
#[derive(Clone, Copy, Debug, PartialEq, Eq, Structural)]
pub enum Band {
    /// The band is not on the screen.
    Off,
    /// One row for each column: the type and the share of NULL values.
    Compact,
    /// Four rows for each column.
    Detailed,
}

/// The rows that a mode of the band asks for.
pub open spec fn band_height(b: Band) -> u16 {
    match b {
        Band::Off => 0,
        Band::Compact => 1,
        Band::Detailed => 4,
    }
}

/// The mode that a name of the settings file gives, once the name is trimmed
/// and in small letters.
pub open spec fn band_named(t: Seq<char>) -> Option<Band> {
    if t == "off"@ || t == "none"@ || t == ""@ {
        Some(Band::Off)
    } else if t == "compact"@ || t == "short"@ {
        Some(Band::Compact)
    } else if t == "detailed"@ || t == "detail"@ || t == "full"@ {
        Some(Band::Detailed)
    } else {
        None
    }
}

/// The name of a mode of the band in the settings file.
pub open spec fn band_name(b: Band) -> Seq<char> {
    match b {
        Band::Off => "off"@,
        Band::Compact => "compact"@,
        Band::Detailed => "detailed"@,
    }
}

/// The mode that follows another one on the key that moves through the
/// three.
pub open spec fn band_after(b: Band) -> Band {
    match b {
        Band::Off => Band::Compact,
        Band::Compact => Band::Detailed,
        Band::Detailed => Band::Off,
    }
}

impl Default for Band {
    /// No band.
    fn default() -> (r: Band)
        ensures
            r == Band::Off,
    {
        Band::Off
    }
}

impl Band {
    /// The number of rows of the detailed band: the type, the share of NULL
    /// values, the count of the different values, and the range from the
    /// smallest value to the largest value.
    pub const DETAIL_ROWS: u16 = 4;

    /// Reads a mode from the name that the settings file holds. The name may
    /// have white space at its ends and capital letters.
    pub fn parse(s: &str) -> (r: Option<Band>)
        ensures
            r == band_named(ascii_lowered(trimmed(s@))),
    {
        let t = trimmed_ascii_lower(s);
        if same_text(&t, "off") || same_text(&t, "none") || same_text(&t, "") {
            Some(Band::Off)
        } else if same_text(&t, "compact") || same_text(&t, "short") {
            Some(Band::Compact)
        } else if same_text(&t, "detailed") || same_text(&t, "detail") || same_text(&t, "full") {
            Some(Band::Detailed)
        } else {
            None
        }
    }

    /// Gives the number of rows that this mode asks for.
    pub fn rows(self) -> (r: u16)
        ensures
            r == band_height(self),
    {
        match self {
            Band::Off => 0,
            Band::Compact => 1,
            Band::Detailed => Band::DETAIL_ROWS,
        }
    }

    /// Gives `true` when the band needs the count of the different values and
    /// the range of the values.
    ///
    /// The compact band needs the NULL share only, and the footer of a Parquet
    /// file gives that share with no query.
    pub fn needs_values(self) -> (r: bool)
        ensures
            r == (self == Band::Detailed),
    {
        match self {
            Band::Detailed => true,
            _ => false,
        }
    }

    /// Gives the name that the settings file holds.
    pub fn name(self) -> (r: &'static str)
        ensures
            r@ == band_name(self),
    {
        match self {
            Band::Off => "off",
            Band::Compact => "compact",
            Band::Detailed => "detailed",
        }
    }

    /// Gives the text that the status line shows after a change.
    pub fn label(self) -> (r: &'static str)
        ensures
            r@ == match self {
                Band::Off => "no column details"@,
                Band::Compact => "column details: compact"@,
                Band::Detailed => "column details: type, nulls, distinct, range"@,
            },
    {
        match self {
            Band::Off => "no column details",
            Band::Compact => "column details: compact",
            Band::Detailed => "column details: type, nulls, distinct, range",
        }
    }

    /// Gives the next mode, for the key that moves through the three.
    pub fn next(self) -> (r: Band)
        ensures
            r == band_after(self),
    {
        match self {
            Band::Off => Band::Compact,
            Band::Compact => Band::Detailed,
            Band::Detailed => Band::Off,
        }
    }
}

/// Three presses of the key that moves through the modes of the band come
/// back to the mode of the start.
pub proof fn band_cycle_returns(b: Band)
    ensures
        band_after(band_after(band_after(b))) == b,
{
}

/// A word of small ASCII letters stays as it is when the settings file reads
/// it: no white space to cut, and no capital letter to make small.
proof fn lemma_plain_word(s: Seq<char>)
    requires
        s.len() > 0,
        forall|i: int| 0 <= i < s.len() ==> 'a' <= #[trigger] s[i] <= 'z',
    ensures
        ascii_lowered(trimmed(s)) == s,
{
    assert(!white_space(s[0]));
    assert(!white_space(s[s.len() - 1]));
    assert(s.subrange(0, s.len() as int) =~= s);
    assert(ascii_lowered(s) =~= s);
}

/// The name that the settings file holds for a mode of the band reads back
/// as that mode.
pub proof fn a_band_reads_back_from_its_name(b: Band)
    ensures
        band_named(ascii_lowered(trimmed(band_name(b)))) == Some(b),
{
    reveal_strlit("off");
    reveal_strlit("none");
    reveal_strlit("");
    reveal_strlit("compact");
    reveal_strlit("short");
    reveal_strlit("detailed");
    lemma_plain_word(band_name(b));
    match b {
        Band::Off => {},
        Band::Compact => {
            assert("compact"@.len() == 7);
        },
        Band::Detailed => {
            assert("detailed"@ != "compact"@ && "detailed"@ != "short"@);
        },
    }
}

/// The name that the settings file holds for a panel reads back as that
/// panel.
pub proof fn a_panel_reads_back_from_its_name(p: Panel)
    ensures
        panel_named(ascii_lowered(trimmed(panel_name(p)))) == Some(p),
{
    reveal_strlit("none");
    reveal_strlit("");
    reveal_strlit("meta");
    reveal_strlit("metadata");
    reveal_strlit("stats");
    reveal_strlit("statistics");
    reveal_strlit("both");
    lemma_plain_word(panel_name(p));
    match p {
        Panel::Nothing => {},
        Panel::Meta => {},
        Panel::Stats => {
            assert("stats"@ != "meta"@);
        },
        Panel::Both => {
            assert("both"@ != "meta"@ && "both"@ != "none"@);
        },
    }
}

/// Four presses of the key that moves through the panels come back to the
/// panel of the start.
pub proof fn panel_cycle_returns(p: Panel)
    ensures
        panel_after(panel_after(panel_after(panel_after(p)))) == p,
{
}

} // verus!

verus! {

/// The largest value of a 16-bit position: a sum that passes it stops there,
/// as `u16::saturating_add` does.
pub open spec fn sat_add(a: u16, b: int) -> int {
    if a + b > u16::MAX { u16::MAX as int } else { a + b }
}

/// Gives `true` when a column of the terminal lies on a column of the grid
/// that starts at `cx` and is `w` wide.
pub open spec fn within(x: u16, cx: u16, w: u16) -> bool {
    cx <= x && x < sat_add(cx, w as int)
}

/// The position in the schema of the first column of the list that covers a
/// column of the terminal.
pub open spec fn first_col(cols: Seq<(usize, u16, u16)>, x: u16) -> Option<usize>
    decreases cols.len(),
{
    if cols.len() == 0 {
        None
    } else if within(x, cols[0].1, cols[0].2) {
        Some(cols[0].0)
    } else {
        first_col(cols.drop_first(), x)
    }
}

/// The position in a list of the first line that sits on a row of the
/// terminal.
pub open spec fn first_line(lines: Seq<(u16, usize)>, y: u16) -> Option<usize>
    decreases lines.len(),
{
    if lines.len() == 0 {
        None
    } else if lines[0].0 == y {
        Some(lines[0].1)
    } else {
        first_line(lines.drop_first(), y)
    }
}

/// Where the grid is on the screen.
///
/// A mouse event gives a row and a column of the terminal. Only the code that
/// draws the grid knows which cell is at that position, so it writes the
/// positions here after each frame. The mouse then reads them.
#[derive(Clone, Debug)]
pub struct Hit {
    /// The row of the terminal that holds the column names.
    pub header_y: u16,
    /// The number of rows of the detail band, under the column names.
    pub band: u16,
    /// The first row of the terminal that holds a row of data.
    pub top: u16,
    /// The number of rows of data on the screen. Zero means that the grid has
    /// no room, and that no click can land on a row.
    pub rows: u16,
    /// The first column of the terminal that the grid covers.
    pub left: u16,
    /// The number of columns of the terminal that the grid covers. Zero means
    /// that the grid has no room.
    pub width: u16,
    /// Each column that the grid draws: its position in the schema, its column
    /// of the terminal, and its width.
    pub cols: Vec<(usize, u16, u16)>,
}

impl Default for Hit {
    /// A grid with no room and no column.
    fn default() -> (r: Hit)
        ensures
            r.header_y == 0 && r.band == 0 && r.top == 0 && r.rows == 0,
            r.left == 0 && r.width == 0,
            r.cols@ == Seq::<(usize, u16, u16)>::empty(),
    {
        Hit { header_y: 0, band: 0, top: 0, rows: 0, left: 0, width: 0, cols: Vec::new() }
    }
}

impl Hit {
    /// Gives `true` when a column of the terminal is inside the grid.
    ///
    /// A panel at the side of the grid covers the same rows as the grid, so the
    /// row of an event does not say that the event belongs to the grid.
    pub fn holds(&self, x: u16) -> (r: bool)
        ensures
            r == (self.width > 0 && within(x, self.left, self.width)),
    {
        self.width > 0 && x >= self.left && x < self.left.saturating_add(self.width)
    }

    /// Gives the offset of the row at a row of the terminal, counted from the
    /// first row on the screen. The result is `None` when the position is
    /// outside the grid.
    pub fn row_at(&self, y: u16) -> (r: Option<u64>)
        ensures
            r == if self.rows > 0 && within(y, self.top, self.rows) {
                Some((y - self.top) as u64)
            } else {
                None
            },
    {
        if self.rows > 0 && y >= self.top && y < self.top.saturating_add(self.rows) {
            Some((y - self.top) as u64)
        } else {
            None
        }
    }

    /// Gives `true` when a row of the terminal holds the column names or one row
    /// of the detail band.
    ///
    /// A click there moves to the column and leaves the row where it is. The
    /// band belongs to the header: it describes a column and not a row.
    pub fn on_labels(&self, y: u16) -> (r: bool)
        requires
            self.band < u16::MAX,
        ensures
            r == (self.header_y <= y && y < sat_add(self.header_y, 1 + self.band)),
    {
        y >= self.header_y && y < self.header_y.saturating_add(1 + self.band)
    }

    /// Gives the position in the schema of the column at a column of the
    /// terminal. The result is `None` for the gutter of row numbers and for
    /// the space after the last column.
    pub fn col_at(&self, x: u16) -> (r: Option<usize>)
        ensures
            r == first_col(self.cols@, x),
    {
        let mut i: usize = 0;
        assert(self.cols@.subrange(0, self.cols@.len() as int) =~= self.cols@);
        while i < self.cols.len()
            invariant
                i <= self.cols@.len(),
                first_col(self.cols@.subrange(i as int, self.cols@.len() as int), x) == first_col(
                    self.cols@,
                    x,
                ),
            decreases self.cols@.len() - i,
        {
            let (ci, cx, w) = self.cols[i];
            let ghost rest = self.cols@.subrange(i as int, self.cols@.len() as int);
            assert(rest.drop_first() =~= self.cols@.subrange(i + 1, self.cols@.len() as int));
            if x >= cx && x < cx.saturating_add(w) {
                return Some(ci);
            }
            i += 1;
        }
        None
    }
}

/// Where an overlay is on the screen.
///
/// This is the same idea as [`Hit`], for the box that covers the grid. Only the
/// code that draws an overlay knows the box that it chose, so each overlay
/// gives the box back. The mouse then reads it: a click outside the box closes
/// the overlay, and a click on a line of the list acts on that line.
#[derive(Clone, Debug)]
pub struct OverlayHit {
    /// The mode that drew this box.
    pub mode: Mode,
    /// The box, with its border.
    pub area: Rect,
    /// One pair for each line of the list on the screen: the row of the
    /// terminal, and the position of that line in the list.
    pub lines: Vec<(u16, usize)>,
}

impl OverlayHit {
    /// Makes the record of a box that holds no list.
    pub fn new(mode: Mode, area: Rect) -> (r: OverlayHit)
        ensures
            r.mode == mode,
            r.area == area,
            r.lines@ == Seq::<(u16, usize)>::empty(),
    {
        OverlayHit { mode, area, lines: Vec::new() }
    }

    /// Adds one line of the list, at a row of the terminal.
    pub fn line(&mut self, y: u16, at: usize)
        ensures
            final(self).mode == old(self).mode,
            final(self).area == old(self).area,
            final(self).lines@ == old(self).lines@.push((y, at)),
    {
        self.lines.push((y, at));
    }

    /// Gives `true` when a position of the terminal is inside the box.
    pub fn holds(&self, x: u16, y: u16) -> (r: bool)
        ensures
            r == (self.area.x <= x && x < self.area.right() && self.area.y <= y && y
                < self.area.bottom()),
    {
        x >= self.area.x && x < self.area.right() && y >= self.area.y && y < self.area.bottom()
    }

    /// Gives the position in the list of the line at a row of the terminal.
    /// The result is `None` for the border, for a prompt and for a heading.
    pub fn line_at(&self, y: u16) -> (r: Option<usize>)
        ensures
            r == first_line(self.lines@, y),
    {
        let mut i: usize = 0;
        assert(self.lines@.subrange(0, self.lines@.len() as int) =~= self.lines@);
        while i < self.lines.len()
            invariant
                i <= self.lines@.len(),
                first_line(self.lines@.subrange(i as int, self.lines@.len() as int), y)
                    == first_line(self.lines@, y),
            decreases self.lines@.len() - i,
        {
            let (ly, at) = self.lines[i];
            let ghost rest = self.lines@.subrange(i as int, self.lines@.len() as int);
            assert(rest.drop_first() =~= self.lines@.subrange(i + 1, self.lines@.len() as int));
            if ly == y {
                return Some(at);
            }
            i += 1;
        }
        None
    }
}

/// What a mouse event does to the overlay that is open.
#[derive(Clone, Copy, Debug, PartialEq, Eq, Structural)]
pub enum OverlayPress {
    /// A turn of the wheel, down (`true`) or up: it moves the list.
    Wheel(bool),
    /// Nothing: another event, no box on the screen, a box of another mode,
    /// or a press on the border, a prompt, a heading or the row of keys.
    Ignore,
    /// A press outside the box: leave the overlay.
    Close,
    /// A press on the line at this position of the list.
    Line(usize),
}

/// What a mouse event does to the overlay of the mode `mode`, when the last
/// frame drew the box `hit` (`None` when it drew none).
///
/// The wheel moves the list. Only a press of the left button acts otherwise,
/// and only on the box that the frame drew for this mode: a press outside it
/// leaves the overlay, and a press on a line of its list acts on that line.
pub open spec fn overlay_press_of(hit: Option<OverlayHit>, mode: Mode, ev: MouseEvent) -> OverlayPress {
    match ev.kind {
        MouseEventKind::ScrollDown => OverlayPress::Wheel(true),
        MouseEventKind::ScrollUp => OverlayPress::Wheel(false),
        MouseEventKind::Down(MouseButton::Left) => match hit {
            None => OverlayPress::Ignore,
            Some(h) => if h.mode != mode {
                OverlayPress::Ignore
            } else if !(h.area.x <= ev.column && ev.column < h.area.right() && h.area.y <= ev.row && ev.row
                < h.area.bottom()) {
                OverlayPress::Close
            } else {
                match first_line(h.lines@, ev.row) {
                    Some(at) => OverlayPress::Line(at),
                    None => OverlayPress::Ignore,
                }
            },
        },
        _ => OverlayPress::Ignore,
    }
}

/// Gives what a mouse event does to the overlay: refer to
/// [`overlay_press_of`].
pub fn overlay_press(hit: Option<&OverlayHit>, mode: Mode, ev: &MouseEvent) -> (r: OverlayPress)
    ensures
        r == overlay_press_of(
            match hit {
                Some(h) => Some(*h),
                None => None,
            },
            mode,
            *ev,
        ),
{
    match ev.kind {
        MouseEventKind::ScrollDown => OverlayPress::Wheel(true),
        MouseEventKind::ScrollUp => OverlayPress::Wheel(false),
        MouseEventKind::Down(MouseButton::Left) => match hit {
            None => OverlayPress::Ignore,
            Some(h) => {
                if h.mode != mode {
                    OverlayPress::Ignore
                } else if !h.holds(ev.column, ev.row) {
                    OverlayPress::Close
                } else {
                    match h.line_at(ev.row) {
                        Some(at) => OverlayPress::Line(at),
                        None => OverlayPress::Ignore,
                    }
                }
            },
        },
        _ => OverlayPress::Ignore,
    }
}

/// The kind of a message on the status line.
#[derive(Clone, Copy, Debug, PartialEq, Eq, Structural)]
pub enum StatusKind {
    /// A message about the state of the program.
    Info,
    /// A message about an operation that succeeded.
    Success,
    /// A message about a failure.
    Error,
}

/// One message on the status line.
#[derive(Clone, Debug)]
pub struct Status {
    /// The text of the message.
    pub text: String,
    /// The kind of the message. It selects the color and the sign.
    pub kind: StatusKind,
}

} // verus!

verus! {

/// The rows that one turn of the wheel moves.
///
/// A terminal and a text editor both move three lines for one turn. The grid
/// therefore moves by the same amount as the other windows of the user.
pub const WHEEL_ROWS: i64 = 3;

/// The columns that one turn of the wheel to the side moves.
///
/// A column is much wider than a row is high, so a turn moves fewer columns
/// than rows. Two columns keep the movement inside one screen.
pub const WHEEL_COLS: i64 = 2;

/// What one turn of the wheel does in the grid.
#[derive(Clone, Copy, Debug, PartialEq, Eq, Structural)]
pub enum Wheel {
    /// Move this number of rows. A negative number moves up the view.
    Rows(i64),
    /// Move this number of columns. A negative number moves to the left.
    Cols(i64),
    /// The event is not a turn of the wheel.
    Still,
}

/// The movement of one mouse event: with `sideways`, the vertical wheel moves
/// the columns.
pub open spec fn wheel_move(kind: MouseEventKind, sideways: bool) -> Wheel {
    match kind {
        MouseEventKind::ScrollDown => if sideways { Wheel::Cols(WHEEL_COLS) } else { Wheel::Rows(WHEEL_ROWS) },
        MouseEventKind::ScrollUp => if sideways { Wheel::Cols((-WHEEL_COLS) as i64) } else { Wheel::Rows((-WHEEL_ROWS) as i64) },
        MouseEventKind::ScrollRight => Wheel::Cols(WHEEL_COLS),
        MouseEventKind::ScrollLeft => Wheel::Cols((-WHEEL_COLS) as i64),
        _ => Wheel::Still,
    }
}

/// Reads one mouse event and gives the movement for it.
///
/// The plain wheel always moves the view up and down. That is what the wheel
/// does in each other program, and it must not change.
///
/// The wheel with the control key, and the wheel with the shift key, move the
/// view to the side. A wheel that turns to the side does the same, but few mice
/// have one. Some terminals keep the control key with the wheel for the size of
/// the text, and the viewer then never sees the event. The shift key is
/// therefore the form that always works, and the two are both here.
pub fn wheel_of(ev: &MouseEvent) -> (r: Wheel)
    ensures
        r == wheel_move(ev.kind, ev.modifiers.shift || ev.modifiers.control),
{
    let sideways = ev.modifiers.shift || ev.modifiers.control;
    match ev.kind {
        MouseEventKind::ScrollDown => if sideways { Wheel::Cols(WHEEL_COLS) } else { Wheel::Rows(WHEEL_ROWS) },
        MouseEventKind::ScrollUp => if sideways { Wheel::Cols(-WHEEL_COLS) } else { Wheel::Rows(-WHEEL_ROWS) },
        MouseEventKind::ScrollRight => Wheel::Cols(WHEEL_COLS),
        MouseEventKind::ScrollLeft => Wheel::Cols(-WHEEL_COLS),
        _ => Wheel::Still,
    }
}

/// The plain wheel never moves to the side, and the wheel down always moves
/// down the view.
pub proof fn plain_wheel_moves_rows(kind: MouseEventKind)
    ensures
        kind == MouseEventKind::ScrollDown ==> (wheel_move(kind, false) matches Wheel::Rows(n)
            && n > 0),
        kind == MouseEventKind::ScrollUp ==> (wheel_move(kind, false) matches Wheel::Rows(n) && n
            < 0),
{
}

/// The clock of the machine, as `std::time::Instant`. A value of it is opaque
/// to the proofs, which carry it through.
#[verifier::external_type_specification]
#[verifier::external_body]
pub struct ExInstant(std::time::Instant);

/// Reads the monotonic clock (`Instant::now`). Nothing is stated of the
/// result: it depends on the time.
#[verifier::external_body]
fn clock_now() -> Instant {
    Instant::now()
}

/// Gives the nanoseconds from one instant to a later one
/// (`Instant::duration_since` and `Duration::as_nanos`). The duration is zero
/// when the first instant is the later one; nothing more is stated, because
/// the values of the instants are opaque.
#[verifier::external_body]
fn nanos_between(earlier: Instant, later: Instant) -> u128 {
    later.duration_since(earlier).as_nanos()
}

/// The longest time, in nanoseconds, between two presses of the left button
/// that the viewer reads as one double click: 400 ms.
///
/// A terminal reports a press and a release, and never a double click. The
/// viewer therefore finds the double click itself: two presses of the left
/// button, at the same row and the same column of the terminal, inside this
/// time. 400 ms is the value that a desktop system uses.
pub const DOUBLE_CLICK_NANOS: u128 = 400_000_000;

/// One press of the left button.
#[derive(Clone, Copy, Debug)]
pub struct Press {
    /// The column of the terminal.
    pub column: u16,
    /// The row of the terminal.
    pub row: u16,
    /// The time of the press.
    pub at: Instant,
    /// `true` when this press closed a double click.
    ///
    /// The next press then starts a new pair. Without this, three presses
    /// would give two double clicks, and a user who clicks quickly would open
    /// the same thing two times.
    pub paired: bool,
}

/// Finds a double click in the presses of the left button.
#[derive(Clone, Copy, Debug)]
pub struct Clicks {
    /// The press that came before this one.
    last: Option<Press>,
}

impl Default for Clicks {
    /// No press yet.
    fn default() -> (r: Clicks)
        ensures
            r.last_press() is None,
    {
        Clicks { last: None }
    }
}

impl Clicks {
    /// The press that came before the next one.
    pub closed spec fn last_press(&self) -> Option<Press> {
        self.last
    }

    /// Gives `true` when a press at this place can close a pair: the press
    /// before it was at the same place and closed no pair.
    pub open spec fn pairs_with(&self, column: u16, row: u16) -> bool {
        self.last_press() matches Some(l) && !l.paired && l.column == column && l.row == row
    }

    /// Gives `true` when a press at this place, this many nanoseconds after
    /// the press before it, closes a double click.
    pub fn closes_pair(&self, column: u16, row: u16, gap_nanos: u128) -> (r: bool)
        ensures
            r == (self.pairs_with(column, row) && gap_nanos <= DOUBLE_CLICK_NANOS),
    {
        match self.last {
            Some(l) => !l.paired && l.column == column && l.row == row && gap_nanos
                <= DOUBLE_CLICK_NANOS,
            None => false,
        }
    }

    /// Records one press of the left button, and gives `true` when the press
    /// closes a double click.
    ///
    /// Whether the press came in time depends on the clock; a press that does
    /// not pair with the one before it, by its place or because that one closed
    /// a pair, is never a double click.
    pub fn press(&mut self, column: u16, row: u16, now: Instant) -> (r: bool)
        ensures
            r ==> old(self).pairs_with(column, row),
            final(self).last_press() == Some(Press { column, row, at: now, paired: r }),
    {
        let gap: u128 = match self.last {
            Some(l) => nanos_between(l.at, now),
            None => 0,
        };
        let double = self.closes_pair(column, row, gap);
        self.last = Some(Press { column, row, at: now, paired: double });
        double
    }

    /// Records one press that happens now.
    pub fn press_now(&mut self, column: u16, row: u16) -> (r: bool)
        ensures
            r ==> old(self).pairs_with(column, row),
            final(self).last_press() matches Some(p) && p.column == column && p.row == row
                && p.paired == r,
    {
        self.press(column, row, clock_now())
    }
}

/// A press that closed a double click never closes a second one: the next
/// press starts a new pair, whatever its place and its time.
pub proof fn a_closed_pair_stays_closed(c: Clicks, column: u16, row: u16)
    requires
        c.last_press() matches Some(l) && l.paired,
    ensures
        !c.pairs_with(column, row),
{
}

/// The largest size of a file of text that the viewer indexes when it opens
/// it.
///
/// A scan of this size is quick, and the user does not notice it. For a
/// larger file the viewer waits for the key `I`, so the user never waits for
/// a scan that the user did not ask for. The index holds the file in memory,
/// at about one and a third times its size, so the limit also limits what
/// the viewer spends without asking.
pub const AUTO_INDEX_BYTES: u64 = 64 * 1024 * 1024;

/// The largest number of columns of a file that the viewer indexes when it
/// opens it. The size in bytes is the wrong measure by itself: a file with
/// thousands of columns is slow to index at any size.
pub const AUTO_INDEX_COLUMNS: usize = 256;

/// Gives `true` when the viewer indexes a file as it opens it: the user
/// allows it, the engine cannot jump to any row of the file already, and the
/// file is small in bytes and in columns.
pub fn indexes_at_open(auto_index: bool, seekable: bool, bytes: u64, columns: usize) -> (r: bool)
    ensures
        r == (auto_index && !seekable && bytes < AUTO_INDEX_BYTES && columns <= AUTO_INDEX_COLUMNS),
{
    auto_index && !seekable && bytes < AUTO_INDEX_BYTES && columns <= AUTO_INDEX_COLUMNS
}

/// The step that a setting of no value gives.
pub const DEFAULT_STEP: usize = 10;

/// The largest step. A step of some million rows is a jump, and the key `#`
/// does a jump better.
pub const MAX_STEP: usize = 1000;

/// Reads the step from the settings, and keeps it inside its limits.
///
/// The value is never below one. A step of zero would give a key that does
/// nothing, and the user would read that as a fault in the program.
pub fn step_of(setting: Option<usize>) -> (r: i64)
    ensures
        r == (match setting {
            Some(v) => if v < 1 { 1 } else if v > MAX_STEP { MAX_STEP as int } else { v as int },
            None => DEFAULT_STEP as int,
        }),
{
    let v = match setting {
        Some(v) => v,
        None => DEFAULT_STEP,
    };
    let c = if v < 1 { 1 } else if v > MAX_STEP { MAX_STEP } else { v };
    c as i64
}

/// The smallest width of a column, in screen columns.
pub const MIN_COL_WIDTH: u16 = 3;

/// The largest width that the viewer gives to a column when it fits the
/// widths.
pub const MAX_COL_WIDTH: u16 = 60;

/// The screen columns that a fitted column keeps free after its name: two
/// blank columns and the type mark in the header, and in the band the share of
/// NULL values, which is four characters at the most, after one blank column.
pub const NAME_HEADROOM: usize = 5;

/// The width of a fitted column.
pub open spec fn fitted(name: int, widest: int) -> int {
    let w = if widest >= name + NAME_HEADROOM { widest } else { name + NAME_HEADROOM };
    let w = if w <= MAX_COL_WIDTH { w } else { MAX_COL_WIDTH as int };
    if w >= MIN_COL_WIDTH { w } else { MIN_COL_WIDTH as int }
}

/// Gives the width of one column, from the width of its name and the width of
/// the widest value on the screen.
///
/// The result covers the name and [`NAME_HEADROOM`], so the header and the band
/// always have their room, also for a column of narrow values. The limit
/// [`MAX_COL_WIDTH`] comes last and wins over that rule: one column with a very
/// long name must not push each other column off the right edge.
pub fn fitted_width(name: usize, widest: usize) -> (r: u16)
    requires
        name + NAME_HEADROOM <= usize::MAX,
    ensures
        r == fitted(name as int, widest as int),
        MIN_COL_WIDTH <= r <= MAX_COL_WIDTH,
        r >= name + NAME_HEADROOM || r == MAX_COL_WIDTH,
        r >= widest || r == MAX_COL_WIDTH,
{
    let need = name + NAME_HEADROOM;
    let w = if widest >= need { widest } else { need };
    let w = if w <= MAX_COL_WIDTH as usize { w } else { MAX_COL_WIDTH as usize };
    let w = w as u16;
    if w >= MIN_COL_WIDTH { w } else { MIN_COL_WIDTH }
}

} // verus!

verus! {

/// Gives `true` when one text comes before another in the order of the code
/// points of their characters, as `str` compares them.
pub open spec fn lex_lt(a: Seq<char>, b: Seq<char>) -> bool
    decreases a.len(),
{
    if a.len() == 0 {
        b.len() > 0
    } else if b.len() == 0 {
        false
    } else if a[0] != b[0] {
        a[0] < b[0]
    } else {
        lex_lt(a.drop_first(), b.drop_first())
    }
}

/// The order of the completion: the shorter name first, and among names of
/// one length the first one in the order of `str`.
pub open spec fn shorter_first(a: Seq<char>, b: Seq<char>) -> bool {
    a.len() < b.len() || (a.len() == b.len() && lex_lt(a, b))
}

/// The order of `str` never holds both ways.
pub proof fn lemma_lex_lt_asymmetric(a: Seq<char>, b: Seq<char>)
    ensures
        !(lex_lt(a, b) && lex_lt(b, a)),
    decreases a.len(),
{
    if a.len() > 0 && b.len() > 0 && a[0] == b[0] {
        lemma_lex_lt_asymmetric(a.drop_first(), b.drop_first());
    }
}

/// The order of `str` is transitive.
pub proof fn lemma_lex_lt_transitive(a: Seq<char>, b: Seq<char>, c: Seq<char>)
    requires
        lex_lt(a, b),
        lex_lt(b, c),
    ensures
        lex_lt(a, c),
    decreases a.len(),
{
    if a.len() > 0 && b.len() > 0 && c.len() > 0 && a[0] == b[0] && b[0] == c[0] {
        lemma_lex_lt_transitive(a.drop_first(), b.drop_first(), c.drop_first());
    }
}

/// Gives `true` when one list of characters comes before another in the order
/// of `str`.
pub(crate) fn lex_less(a: &Vec<char>, b: &Vec<char>) -> (r: bool)
    ensures
        r == lex_lt(a@, b@),
{
    let mut i: usize = 0;
    assert(a@.skip(0) =~= a@);
    assert(b@.skip(0) =~= b@);
    while i < a.len() && i < b.len() && a[i] == b[i]
        invariant
            i <= a@.len(),
            i <= b@.len(),
            lex_lt(a@.skip(i as int), b@.skip(i as int)) == lex_lt(a@, b@),
        decreases a@.len() - i,
    {
        assert(a@.skip(i as int).drop_first() =~= a@.skip(i + 1));
        assert(b@.skip(i as int).drop_first() =~= b@.skip(i + 1));
        i += 1;
    }
    if i == a.len() {
        i < b.len()
    } else if i == b.len() {
        false
    } else {
        a[i] < b[i]
    }
}

/// Gives `true` when a list of characters starts with another one.
pub(crate) fn starts_with_chars(s: &Vec<char>, p: &Vec<char>) -> (r: bool)
    ensures
        r == p@.is_prefix_of(s@),
{
    if p.len() > s.len() {
        return false;
    }
    let mut i: usize = 0;
    while i < p.len()
        invariant
            i <= p@.len() <= s@.len(),
            forall|k: int| 0 <= k < i ==> s@[k] == p@[k],
        decreases p@.len() - i,
    {
        if s[i] != p[i] {
            return false;
        }
        i += 1;
    }
    assert(s@.take(p@.len() as int) =~= p@);
    true
}

/// A name that the completion offers for a typed text: its small letters
/// start with the small letters of the text.
pub open spec fn offers(typed: Seq<char>, name: Seq<char>) -> bool {
    lower_text(typed).is_prefix_of(lower_text(name))
}

/// The view of a text that may be missing.
pub open spec fn text_view(r: Option<String>) -> Option<Seq<char>> {
    match r {
        Some(s) => Some(s@),
        None => None,
    }
}

/// The characters of a name after the first `n`, or `None` when none is left.
pub open spec fn rest_after(name: Seq<char>, n: nat) -> Option<Seq<char>> {
    if name.len() > n {
        Some(name.skip(n as int))
    } else {
        None
    }
}

/// Gives `true` when the name at `i` is offered for the typed text, and no
/// offered name comes before it.
pub open spec fn least_offer(typed: Seq<char>, names: Seq<String>, i: int) -> bool {
    &&& 0 <= i < names.len()
    &&& offers(typed, names[i]@)
    &&& forall|j: int|
        0 <= j < names.len() && offers(typed, #[trigger] names[j]@) ==> !shorter_first(
            names[j]@,
            names[i]@,
        )
}

/// Gives `true` when some name is offered for the typed text.
pub open spec fn any_offer(typed: Seq<char>, names: Seq<String>) -> bool {
    exists|j: int| 0 <= j < names.len() && offers(typed, #[trigger] names[j]@)
}

/// [`least_offer`] over the characters of the names.
pub open spec fn least_offer_of(typed: Seq<char>, names: Seq<Seq<char>>, i: int) -> bool {
    &&& 0 <= i < names.len()
    &&& offers(typed, names[i])
    &&& forall|j: int|
        0 <= j < names.len() && offers(typed, #[trigger] names[j]) ==> !shorter_first(names[j], names[i])
}

/// [`any_offer`] over the characters of the names.
pub open spec fn any_offer_of(typed: Seq<char>, names: Seq<Seq<char>>) -> bool {
    exists|j: int| 0 <= j < names.len() && offers(typed, #[trigger] names[j])
}

/// The rest of a name that the completion offers for a typed text: nothing
/// for an empty text or when no name is offered; otherwise the characters
/// after the typed ones of the first name in the order of the completion.
pub open spec fn offered(typed: Seq<char>, names: Seq<Seq<char>>) -> Option<Seq<char>> {
    if typed.len() == 0 || !any_offer_of(typed, names) {
        None
    } else {
        let i = choose|i: int| least_offer_of(typed, names, i);
        rest_after(names[i], typed.len())
    }
}

/// The two forms of the rule of the completion agree.
pub proof fn lemma_offer_forms(typed: Seq<char>, names: Seq<String>, ns: Seq<Seq<char>>)
    requires
        ns.len() == names.len(),
        forall|k: int| 0 <= k < ns.len() ==> #[trigger] ns[k] == names[k]@,
    ensures
        any_offer(typed, names) == any_offer_of(typed, ns),
        forall|i: int| least_offer(typed, names, i) == #[trigger] least_offer_of(typed, ns, i),
{
    if any_offer(typed, names) {
        let j = choose|j: int| 0 <= j < names.len() && offers(typed, #[trigger] names[j]@);
        assert(offers(typed, ns[j]));
    }
    if any_offer_of(typed, ns) {
        let j = choose|j: int| 0 <= j < ns.len() && offers(typed, #[trigger] ns[j]);
        assert(offers(typed, names[j]@));
    }
    assert forall|i: int| least_offer(typed, names, i) == #[trigger] least_offer_of(typed, ns, i) by {
        if least_offer(typed, names, i) {
            assert forall|j: int| 0 <= j < ns.len() && offers(typed, #[trigger] ns[j]) implies !shorter_first(ns[j], ns[i]) by {
                assert(offers(typed, names[j]@));
            }
        }
        if least_offer_of(typed, ns, i) {
            assert forall|j: int| 0 <= j < names.len() && offers(typed, #[trigger] names[j]@) implies !shorter_first(names[j]@, names[i]@) by {
                assert(offers(typed, ns[j]));
            }
        }
    }
}

/// Finds the name that the completion offers first, with its characters.
fn first_offer(typed: &str, names: &[String]) -> (r: Option<(usize, Vec<char>)>)
    ensures
        match r {
            None => !any_offer(typed@, names@),
            Some((b, cs)) => least_offer(typed@, names@, b as int) && cs@ == names@[b as int]@,
        },
{
    let lower = lowercase_text(typed);
    let lt = chars_of(lower.as_str());
    let mut best: Option<(usize, Vec<char>)> = None;
    let mut i: usize = 0;
    while i < names.len()
        invariant
            i <= names@.len(),
            lt@ == lower_text(typed@),
            match best {
                None => forall|j: int| 0 <= j < i ==> !offers(typed@, #[trigger] names@[j]@),
                Some((b, cs)) => {
                    &&& b < i
                    &&& offers(typed@, names@[b as int]@)
                    &&& cs@ == names@[b as int]@
                    &&& forall|j: int|
                        0 <= j < i && offers(typed@, #[trigger] names@[j]@) ==> !shorter_first(
                            names@[j]@,
                            names@[b as int]@,
                        )
                },
            },
        decreases names@.len() - i,
    {
        if lower_starts_with(&lt, names[i].as_str()) {
            let nc = chars_of(names[i].as_str());
            let take = match &best {
                None => true,
                Some((_, cs)) => nc.len() < cs.len() || (nc.len() == cs.len() && lex_less(&nc, cs)),
            };
            if take {
                proof {
                    if let Some((b, cs)) = best {
                        assert forall|j: int|
                            0 <= j < i && offers(typed@, #[trigger] names@[j]@) implies !shorter_first(
                            names@[j]@,
                            nc@,
                        ) by {
                            lemma_new_least(names@[b as int]@, nc@, names@[j]@);
                        }
                    }
                    lemma_lex_lt_asymmetric(nc@, nc@);
                }
                best = Some((i, nc));
            } else {
                proof {
                    lemma_lex_lt_asymmetric(nc@, nc@);
                }
            }
        }
        i += 1;
    }
    best
}

/// Gives the part of a name that the user did not type yet.
///
/// The shortest name that starts with the text is the one that the user most
/// probably wants. A file with `amount` and `amount_tax` therefore gives
/// `amount` for the text `am`. The comparison ignores the case of the letters,
/// and among names of one length the first in the order of `str` wins.
pub fn ghost_from(typed: &str, names: &[String]) -> (r: Option<String>)
    ensures
        typed@.len() == 0 ==> r is None,
        !any_offer(typed@, names@) ==> r is None,
        typed@.len() > 0 && any_offer(typed@, names@) ==> exists|i: int| least_offer(typed@, names@, i),
        forall|i: int|
            typed@.len() > 0 && #[trigger] least_offer(typed@, names@, i) ==> text_view(r)
                == rest_after(names@[i]@, typed@.len()),
{
    let tc = chars_of(typed);
    if tc.len() == 0 {
        return None;
    }
    match first_offer(typed, names) {
        None => None,
        Some((b, cs)) => {
            proof {
                assert forall|k: int| #[trigger] least_offer(typed@, names@, k) implies names@[k]@
                    == names@[b as int]@ by {
                    lemma_least_is_unique(names@[k]@, names@[b as int]@);
                }
            }
            if cs.len() > tc.len() {
                let rest = text_of_range(cs.as_slice(), tc.len(), cs.len());
                assert(rest@ =~= names@[b as int]@.skip(typed@.len() as int));
                Some(rest)
            } else {
                None
            }
        },
    }
}

/// Two texts that each come no later than the other are one text.
pub proof fn lemma_least_is_unique(a: Seq<char>, b: Seq<char>)
    requires
        !shorter_first(a, b),
        !shorter_first(b, a),
    ensures
        a == b,
    decreases a.len(),
{
    if a.len() == 0 {
        assert(a =~= b);
    } else if a[0] == b[0] {
        lemma_least_is_unique(a.drop_first(), b.drop_first());
        assert(a =~= seq![a[0]] + a.drop_first());
        assert(b =~= seq![b[0]] + b.drop_first());
    }
}

/// A name that comes before the least one so far comes before each name that
/// the least one came before.
pub proof fn lemma_new_least(best: Seq<char>, next: Seq<char>, other: Seq<char>)
    requires
        shorter_first(next, best),
        !shorter_first(other, best),
    ensures
        !shorter_first(other, next),
{
    lemma_lex_lt_asymmetric(other, next);
    lemma_lex_lt_asymmetric(next, best);
    if shorter_first(other, next) && other.len() == next.len() && next.len() == best.len() {
        lemma_lex_lt_transitive(other, next, best);
    }
}

/// Gives `true` when the small letters of a name start with the given small
/// letters.
fn lower_starts_with(lt: &Vec<char>, name: &str) -> (r: bool)
    ensures
        r == lt@.is_prefix_of(lower_text(name@)),
{
    let lname = lowercase_text(name);
    let ln = chars_of(lname.as_str());
    starts_with_chars(&ln, lt)
}

} // verus!

verus! {

/// The number of characters at the start of two texts that are equal.
pub open spec fn common_len(a: Seq<char>, b: Seq<char>) -> nat
    decreases a.len(),
{
    if a.len() == 0 || b.len() == 0 || a[0] != b[0] {
        0
    } else {
        1 + common_len(a.drop_first(), b.drop_first())
    }
}

/// The number of characters that the first name keeps in the shared start of
/// the names before `upto`: the length of the first name, cut at each common
/// start of its small letters with the small letters of another name.
pub open spec fn shared_len(names: Seq<Seq<char>>, upto: int) -> nat
    decreases upto,
{
    if upto <= 1 {
        names[0].len()
    } else {
        let before = shared_len(names, upto - 1);
        let here = common_len(lower_each(names[0]), lower_each(names[upto - 1]));
        if here < before { here } else { before }
    }
}

/// The shared start of the names before `upto` is no longer than the first
/// name, nor than the common start of the small letters of the first name
/// with those of each other name before `upto`; and it is as long as one of
/// these.
proof fn lemma_shared_len(names: Seq<Seq<char>>, upto: int)
    requires
        1 <= upto <= names.len(),
    ensures
        shared_len(names, upto) <= names[0].len(),
        forall|k: int|
            1 <= k < upto ==> shared_len(names, upto) <= common_len(
                lower_each(names[0]),
                lower_each(#[trigger] names[k]),
            ),
        shared_len(names, upto) == names[0].len() || exists|k: int|
            1 <= k < upto && shared_len(names, upto) == common_len(lower_each(names[0]), lower_each(#[trigger] names[k])),
    decreases upto,
{
    if upto > 1 {
        lemma_shared_len(names, upto - 1);
        let here = common_len(lower_each(names[0]), lower_each(names[upto - 1]));
        if here < shared_len(names, upto - 1) {
            assert(shared_len(names, upto) == here);
        }
    }
}

/// The completion of names keeps the longest start that the names share: the
/// start of the first name that is no longer than the common start of its
/// small letters with the small letters of each other name, and as long as
/// the first name or as one of those common starts.
pub proof fn the_common_prefix_is_shared_by_every_name(names: Seq<Seq<char>>)
    requires
        names.len() >= 1,
    ensures
        ({
            let n = shared_len(names, names.len() as int);
            &&& n <= names[0].len()
            &&& forall|k: int|
                1 <= k < names.len() ==> n <= common_len(lower_each(names[0]), lower_each(#[trigger] names[k]))
            &&& (n == names[0].len() || exists|k: int|
                1 <= k < names.len() && n == common_len(lower_each(names[0]), lower_each(#[trigger] names[k])))
        }),
{
    lemma_shared_len(names, names.len() as int);
}

/// Counts the equal characters at the start of two lists of characters.
fn common_count(a: &Vec<char>, b: &Vec<char>) -> (r: usize)
    ensures
        r == common_len(a@, b@),
{
    let mut k: usize = 0;
    assert(a@.skip(0) =~= a@);
    assert(b@.skip(0) =~= b@);
    while k < a.len() && k < b.len() && a[k] == b[k]
        invariant
            k <= a@.len(),
            k <= b@.len(),
            k + common_len(a@.skip(k as int), b@.skip(k as int)) == common_len(a@, b@),
        decreases a@.len() - k,
    {
        assert(a@.skip(k as int).drop_first() =~= a@.skip(k + 1));
        assert(b@.skip(k as int).drop_first() =~= b@.skip(k + 1));
        k += 1;
    }
    k
}

/// Gives the part that each of the names starts with.
///
/// The comparison ignores the case of the letters, because the completion
/// also ignores it. The result comes from the first name, so it keeps the
/// case that the file uses.
pub fn common_prefix(names: &[&str]) -> (r: String)
    ensures
        names@.len() == 0 ==> r@ == Seq::<char>::empty(),
        names@.len() > 0 ==> r@ == names@[0]@.take(
            shared_len(names@.map_values(|n: &str| n@), names@.len() as int) as int,
        ),
        names@.len() > 0 ==> r@.len() <= names@[0]@.len(),
        forall|k: int|
            1 <= k < names@.len() ==> r@.len() <= common_len(lower_each(names@[0]@), lower_each(#[trigger] names@[k]@)),
        names@.len() > 0 ==> (r@.len() == names@[0]@.len() || exists|k: int|
            1 <= k < names@.len() && r@.len() == common_len(lower_each(names@[0]@), lower_each(#[trigger] names@[k]@))),
{
    if names.len() == 0 {
        return String::new();
    }
    let first = chars_of(names[0]);
    let lf = crate::text::lower_all(names[0]);
    let mut n: usize = first.len();
    let mut j: usize = 1;
    while j < names.len()
        invariant
            1 <= j <= names@.len(),
            first@ == names@[0]@,
            lf@ == lower_each(names@[0]@),
            n == shared_len(names@.map_values(|n: &str| n@), j as int),
            n <= first@.len(),
        decreases names@.len() - j,
    {
        let ln = crate::text::lower_all(names[j]);
        let same = common_count(&lf, &ln);
        if same < n {
            n = same;
        }
        j += 1;
    }
    proof {
        let ns = names@.map_values(|n: &str| n@);
        the_common_prefix_is_shared_by_every_name(ns);
        assert forall|k: int| 0 <= k < names@.len() implies #[trigger] ns[k] == names@[k]@ by {}
        assert forall|k: int| 1 <= k < names@.len() implies n <= common_len(
            lower_each(names@[0]@),
            lower_each(#[trigger] names@[k]@),
        ) by {
            assert(ns[k] == names@[k]@);
            assert(ns[0] == names@[0]@);
        }
        if n != first@.len() {
            let k = choose|k: int| 1 <= k < ns.len() && n == common_len(lower_each(ns[0]), lower_each(#[trigger] ns[k]));
            assert(ns[k] == names@[k]@);
            assert(ns[0] == names@[0]@);
        }
    }
    text_of_range(first.as_slice(), 0, n)
}

} // verus!

verus! {

/// Gives `true` when the footer of the file can answer the band, with no
/// query to the engine.
///
/// Three things must hold together: the mode needs the share of NULL values
/// only, since the footer holds no count of the different values and no true
/// range; the view reads the file itself with no filter and no statement of
/// the user, since the footer describes the whole file; and the file is a
/// Parquet file, the one format with such a footer.
pub fn footer_can_answer(band: Band, unfiltered_source: bool, parquet: bool) -> (r: bool)
    ensures
        r == (band != Band::Detailed && unfiltered_source && parquet),
{
    !band.needs_values() && unfiltered_source && parquet
}

/// Gives `true` when the facts of a column answer everything that a mode of
/// the detail band draws.
///
/// The compact band needs the share of NULL values only, and the footer of a
/// Parquet file gives that share with no query. The detailed band also needs
/// the count of the different values and the range, and the footer holds
/// neither. The band must therefore ask the engine when the user moves from
/// the compact mode to the detailed mode.
pub fn brief_is_enough(brief: Option<&crate::grid::ColumnBrief>, band: Band) -> (r: bool)
    ensures
        r == match brief {
            None => false,
            Some(b) => band != Band::Detailed || b.n_distinct is Some,
        },
{
    match brief {
        None => false,
        Some(b) => !band.needs_values() || b.n_distinct.is_some(),
    }
}

} // verus!

verus! {

/// Gives the rest of a name that the completion offers for a typed text:
/// refer to [`offered`].
pub(crate) fn offer(typed: &str, names: &Vec<String>) -> (r: Option<String>)
    ensures
        text_view(r) == offered(typed@, names@.map_values(|n: String| n@)),
{
    let r = ghost_from(typed, names.as_slice());
    proof {
        let ns = names@.map_values(|n: String| n@);
        lemma_offer_forms(typed@, names@, ns);
        if typed@.len() > 0 && any_offer_of(typed@, ns) {
            let w = choose|i: int| least_offer(typed@, names@, i);
            assert(least_offer_of(typed@, ns, w));
            let i = choose|i: int| least_offer_of(typed@, ns, i);
            assert(least_offer(typed@, names@, i));
        }
    }
    r
}

} // verus!

verus! {

/// What a key does in the help and in the cell inspector.
#[derive(Clone, Copy, Debug, PartialEq, Eq, Structural)]
pub enum OverlayStep {
    /// Nothing.
    Nothing,
    /// Leave the overlay for this mode.
    Leave(Mode),
    /// Scroll the text by this many lines.
    Scroll(i32),
    /// Put the value of the cell on the clipboard.
    CopyCell,
}

/// The mode that a closed overlay gives back: the cell inspector that came
/// from the record view gives the record view back, and each other overlay
/// gives the grid.
pub open spec fn mode_after_overlay(mode: Mode, from_record: bool) -> Mode {
    if mode == Mode::Cell && from_record {
        Mode::Record
    } else {
        Mode::Normal
    }
}

/// What a key does in the help (`mode` is [`Mode::Help`]) or in the cell
/// inspector (`Mode::Cell`): Esc, `q` and Enter leave it; `j`, `k`, the
/// arrows and the page keys scroll it; `y` in the cell inspector copies the
/// value.
pub open spec fn overlay_key_step(mode: Mode, from_record: bool, key: KeyEvent) -> OverlayStep {
    match key.code {
        KeyCode::Esc => OverlayStep::Leave(mode_after_overlay(mode, from_record)),
        KeyCode::Enter => OverlayStep::Leave(mode_after_overlay(mode, from_record)),
        KeyCode::Char(c) if c == 'q' => OverlayStep::Leave(mode_after_overlay(mode, from_record)),
        KeyCode::Char(c) if c == 'j' => OverlayStep::Scroll(1i32),
        KeyCode::Down => OverlayStep::Scroll(1i32),
        KeyCode::Char(c) if c == 'k' => OverlayStep::Scroll(-1i32),
        KeyCode::Up => OverlayStep::Scroll(-1i32),
        KeyCode::PageDown => OverlayStep::Scroll(10i32),
        KeyCode::PageUp => OverlayStep::Scroll(-10i32),
        KeyCode::Char(c) if c == 'y' && mode == Mode::Cell => OverlayStep::CopyCell,
        _ => OverlayStep::Nothing,
    }
}

/// Gives what a key does in the help or in the cell inspector: refer to
/// [`overlay_key_step`].
pub fn overlay_key(mode: Mode, from_record: bool, key: &KeyEvent) -> (r: OverlayStep)
    ensures
        r == overlay_key_step(mode, from_record, *key),
{
    let back = if mode == Mode::Cell && from_record { Mode::Record } else { Mode::Normal };
    match key.code {
        KeyCode::Esc | KeyCode::Enter => OverlayStep::Leave(back),
        KeyCode::Down => OverlayStep::Scroll(1),
        KeyCode::Up => OverlayStep::Scroll(-1),
        KeyCode::PageDown => OverlayStep::Scroll(10),
        KeyCode::PageUp => OverlayStep::Scroll(-10),
        KeyCode::Char(c) => {
            if c == 'q' {
                OverlayStep::Leave(back)
            } else if c == 'j' {
                OverlayStep::Scroll(1)
            } else if c == 'k' {
                OverlayStep::Scroll(-1)
            } else if c == 'y' && mode == Mode::Cell {
                OverlayStep::CopyCell
            } else {
                OverlayStep::Nothing
            }
        },
        _ => OverlayStep::Nothing,
    }
}

/// Gives the mode that a click outside an overlay leaves for: refer to
/// [`mode_after_overlay`]. The program also gives the theme of the user back
/// when the theme picker closes, and stops the edit of a setting when the
/// settings page closes.
pub fn close_overlay(mode: Mode, from_record: bool) -> (r: Mode)
    ensures
        r == mode_after_overlay(mode, from_record),
{
    if mode == Mode::Cell && from_record {
        Mode::Record
    } else {
        Mode::Normal
    }
}

} // verus!

verus! {

/// The position of the last full stop of a text, when it holds one.
pub open spec fn last_dot(s: Seq<char>) -> Option<nat>
    decreases s.len(),
{
    if s.len() == 0 {
        None
    } else if s.last() == '.' {
        Some((s.len() - 1) as nat)
    } else {
        last_dot(s.drop_last())
    }
}

/// The two parts of a word before the cursor: the path of the structure in
/// front of its last full stop, and the start of a name after it. A word with
/// no full stop is the start of a column name.
pub open spec fn path_parts(word: Seq<char>) -> (Seq<char>, Seq<char>) {
    match last_dot(word) {
        Some(i) => (word.take(i as int), word.skip(i as int + 1)),
        None => (Seq::empty(), word),
    }
}

/// Splits the word before the cursor: refer to [`path_parts`].
pub fn split_path_word(word: &str) -> (r: (String, String))
    ensures
        (r.0@, r.1@) == path_parts(word@),
{
    let cs = chars_of(word);
    let mut i: usize = cs.len();
    assert(cs@.take(cs@.len() as int) =~= cs@);
    while i > 0 && cs[i - 1] != '.'
        invariant
            i <= cs@.len(),
            cs@ == word@,
            last_dot(cs@.take(i as int)) == last_dot(cs@),
        decreases i,
    {
        assert(cs@.take(i as int).drop_last() =~= cs@.take(i - 1));
        i -= 1;
    }
    if i == 0 {
        assert(cs@.take(0) =~= Seq::<char>::empty());
        (String::new(), crate::chars::text_of(cs.as_slice()))
    } else {
        assert(cs@.take(i as int).last() == '.');
        (text_of_range(cs.as_slice(), 0, i - 1), text_of_range(cs.as_slice(), i, cs.len()))
    }
}

/// The names that start with a typed text, in their order; the comparison
/// ignores the case of the letters.
pub open spec fn name_matches(partial: Seq<char>, names: Seq<Seq<char>>) -> Seq<Seq<char>> {
    names.filter(|n: Seq<char>| lower_text(partial).is_prefix_of(lower_text(n)))
}

/// Names with one space between each two.
pub open spec fn spaced(ws: Seq<Seq<char>>) -> Seq<char>
    decreases ws.len(),
{
    if ws.len() == 0 {
        Seq::empty()
    } else if ws.len() == 1 {
        ws[0]
    } else {
        spaced(ws.drop_last()) + " "@ + ws.last()
    }
}

/// The outcome of the key Tab on the start of a name in a prompt.
#[derive(Debug)]
pub enum Completion {
    /// No name matches; the message says so.
    Refused(String),
    /// One name matches, and the whole name goes into the line.
    One(String),
    /// Some names match: the part that each of them starts with goes into
    /// the line when it is longer than the typed start, and the message names
    /// the first six matches and counts the others.
    Several(Option<String>, String),
}

/// An outcome as values.
pub enum CompletionView {
    Refused(Seq<char>),
    One(Seq<char>),
    Several(Option<Seq<char>>, Seq<char>),
}

/// The value of an outcome.
pub open spec fn completion_view(c: Completion) -> CompletionView {
    match c {
        Completion::Refused(m) => CompletionView::Refused(m@),
        Completion::One(n) => CompletionView::One(n@),
        Completion::Several(p, m) => CompletionView::Several(
            match p {
                Some(t) => Some(t@),
                None => None,
            },
            m@,
        ),
    }
}

/// The outcome of Tab for the typed start `partial` of a name, among the
/// names that the path `prefix` holds.
///
/// No match gives a message that names the typed start. One match goes into
/// the line. Some matches put in the part that each of them starts with, so
/// that the user can type one more character and press Tab again, and the
/// message names the first six of them.
pub open spec fn completion_of(partial: Seq<char>, prefix: Seq<char>, names: Seq<Seq<char>>) -> CompletionView {
    let m = name_matches(partial, names);
    if m.len() == 0 {
        CompletionView::Refused(
            if prefix.len() == 0 {
                "no column starts with "@ + crate::chars::quoted(partial)
            } else {
                prefix + " has no field "@ + crate::chars::quoted(partial)
            },
        )
    } else if m.len() == 1 {
        CompletionView::One(m[0])
    } else {
        let common = m[0].take(shared_len(m, m.len() as int) as int);
        let shown = if m.len() <= 6 { m } else { m.take(6) };
        let more = (m.len() - shown.len()) as nat;
        CompletionView::Several(
            if common.len() > partial.len() { Some(common) } else { None },
            if more > 0 { spaced(shown) + " … +"@ + decimal(more) } else { spaced(shown) },
        )
    }
}

/// Gives the outcome of Tab: refer to [`completion_of`].
pub fn complete_name(partial: &str, prefix: &str, names: &Vec<String>) -> (r: Completion)
    ensures
        completion_view(r) == completion_of(partial@, prefix@, names@.map_values(|n: String| n@)),
{
    let ghost ns = names@.map_values(|n: String| n@);
    let lp = chars_of(lowercase_text(partial).as_str());
    let mut matches: Vec<&str> = Vec::new();
    let mut i: usize = 0;
    while i < names.len()
        invariant
            i <= names@.len(),
            ns == names@.map_values(|n: String| n@),
            lp@ == lower_text(partial@),
            matches@.map_values(|n: &str| n@) == name_matches(partial@, ns.take(i as int)),
        decreases names@.len() - i,
    {
        let n = names[i].as_str();
        proof {
            assert(ns.take(i + 1) =~= ns.take(i as int).push(n@));
            ns.take(i as int).lemma_filter_push(n@, |x: Seq<char>| lower_text(partial@).is_prefix_of(lower_text(x)));
        }
        let ln = chars_of(lowercase_text(n).as_str());
        if starts_with_chars(&ln, &lp) {
            let ghost before = matches@.map_values(|n: &str| n@);
            matches.push(n);
            assert(matches@.map_values(|n: &str| n@) =~= before.push(n@));
        }
        i += 1;
    }
    assert(ns.take(i as int) =~= ns);
    let ghost m = matches@.map_values(|n: &str| n@);
    if matches.len() == 0 {
        let q = crate::chars::quote(partial);
        let mut msg = if chars_of(prefix).len() == 0 {
            String::from_str("no column starts with ")
        } else {
            let mut t = String::from_str(prefix);
            t.append(" has no field ");
            t
        };
        msg.append(q.as_str());
        return Completion::Refused(msg);
    }
    if matches.len() == 1 {
        return Completion::One(String::from_str(matches[0]));
    }
    let common = common_prefix(matches.as_slice());
    let put = if chars_of(common.as_str()).len() > chars_of(partial).len() {
        Some(common)
    } else {
        None
    };
    let count = if matches.len() <= 6 { matches.len() } else { 6 };
    let mut shown = String::new();
    let mut k: usize = 0;
    while k < count
        invariant
            k <= count <= matches@.len(),
            m == matches@.map_values(|n: &str| n@),
            shown@ == spaced(m.take(k as int)),
        decreases count - k,
    {
        if k > 0 {
            shown.append(" ");
        }
        shown.append(matches[k]);
        assert(m.take(k + 1).drop_last() =~= m.take(k as int));
        k += 1;
    }
    proof {
        if m.len() <= 6 {
            assert(m.take(count as int) =~= m);
        }
    }
    let more = matches.len() - count;
    if more > 0 {
        shown.append(" … +");
        let tail = decimal_text(more as u64);
        shown.append(tail.as_str());
    }
    Completion::Several(put, shown)
}

} // verus!
