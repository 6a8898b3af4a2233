//! One table that holds each command, its keys and its description.
//!
//! Three parts of the viewer read the table [`bindings`]:
//!
//! * the code that finds the command for a key
//! * the help overlay that the key `?` opens
//! * the command palette
//!
//! The viewer can therefore have many commands and stay easy to use. Each
//! command that a key starts is also in the help, and the user can also start
//! it by name from the palette. No command is behind a key that the user must
//! know before.

use vstd::prelude::*;

use crate::chars::{chars_of, lower_text, lowercase_text, white_space};
use crate::keys::{KeyCode, KeyEvent, KeyModifiers};

verus! {

/// One command of the viewer.
#[derive(Clone, Copy, Debug, PartialEq, Eq, Structural)]
pub enum Cmd {
    // The commands that move the cursor.
    RowDown,
    RowUp,
    PageDown,
    PageUp,
    HalfPageDown,
    HalfPageUp,
    StepDown,
    StepUp,
    StepLeft,
    StepRight,
    Top,
    Bottom,
    ColRight,
    ColLeft,
    ColFirst,
    ColLast,
    Origin,
    LastCell,
    GotoRow,
    // The commands that change the view.
    SortCycle,
    SortClear,
    FilterBuild,
    Filter,
    FilterThisValue,
    FilterExcludeValue,
    FilterClear,
    Sql,
    Undo,
    Redo,
    ResetView,
    Search,
    SearchNext,
    SearchPrev,
    // The commands that open a panel or an overlay.
    ToggleMeta,
    ToggleStats,
    CyclePanels,
    CycleBand,
    InspectCell,
    Record,
    // The commands that change the columns.
    Widen,
    Narrow,
    FitWidths,
    HideColumn,
    ShowAllColumns,
    // The other commands.
    CopyCell,
    CopyRow,
    IndexCsv,
    ThemeNext,
    ThemePicker,
    Settings,
    Help,
    Palette,
    Cancel,
    Quit,
}

/// One command, with its keys and its text.
pub struct Binding {
    /// The command.
    pub cmd: Cmd,
    /// The keys that start the command.
    pub keys: Vec<(KeyCode, KeyModifiers)>,
    /// The keys, as the help and the footer write them.
    pub label: &'static str,
    /// The description of the command.
    pub desc: &'static str,
    /// The group of the command in the help.
    pub group: &'static str,
}

/// The control key alone, as a value.
pub open spec fn spec_control() -> KeyModifiers {
    KeyModifiers { control: true, ..KeyModifiers::spec_none() }
}

/// The commands and their keys, in the order of the table.
pub open spec fn key_table() -> Seq<(Cmd, Seq<(KeyCode, KeyModifiers)>)> {
    seq![
        (Cmd::RowDown, seq![(KeyCode::Char('j'), KeyModifiers::spec_none()), (KeyCode::Down, KeyModifiers::spec_none())]),
        (Cmd::RowUp, seq![(KeyCode::Char('k'), KeyModifiers::spec_none()), (KeyCode::Up, KeyModifiers::spec_none())]),
        (Cmd::PageDown, seq![(KeyCode::PageDown, KeyModifiers::spec_none()), (KeyCode::Char('f'), spec_control())]),
        (Cmd::PageUp, seq![(KeyCode::PageUp, KeyModifiers::spec_none()), (KeyCode::Char('b'), spec_control())]),
        (Cmd::HalfPageDown, seq![(KeyCode::Char('d'), spec_control())]),
        (Cmd::HalfPageUp, seq![(KeyCode::Char('u'), spec_control())]),
        (Cmd::StepDown, seq![(KeyCode::Char('J'), KeyModifiers::spec_none())]),
        (Cmd::StepUp, seq![(KeyCode::Char('K'), KeyModifiers::spec_none())]),
        (Cmd::StepRight, seq![(KeyCode::Char('L'), KeyModifiers::spec_none())]),
        (Cmd::StepLeft, seq![(KeyCode::Char('H'), KeyModifiers::spec_none())]),
        (Cmd::Top, seq![(KeyCode::Char('g'), KeyModifiers::spec_none())]),
        (Cmd::Bottom, seq![(KeyCode::Char('G'), KeyModifiers::spec_none())]),
        (Cmd::ColRight, seq![(KeyCode::Char('l'), KeyModifiers::spec_none()), (KeyCode::Right, KeyModifiers::spec_none()), (KeyCode::Tab, KeyModifiers::spec_none())]),
        (Cmd::ColLeft, seq![(KeyCode::Char('h'), KeyModifiers::spec_none()), (KeyCode::Left, KeyModifiers::spec_none()), (KeyCode::BackTab, KeyModifiers::spec_none())]),
        (Cmd::ColFirst, seq![(KeyCode::Char('a'), KeyModifiers::spec_none()), (KeyCode::Char('0'), KeyModifiers::spec_none()), (KeyCode::Char('^'), KeyModifiers::spec_none()), (KeyCode::Home, KeyModifiers::spec_none())]),
        (Cmd::ColLast, seq![(KeyCode::Char('z'), KeyModifiers::spec_none()), (KeyCode::Char('$'), KeyModifiers::spec_none()), (KeyCode::End, KeyModifiers::spec_none())]),
        (Cmd::Origin, seq![(KeyCode::Char('o'), KeyModifiers::spec_none()), (KeyCode::Home, spec_control())]),
        (Cmd::LastCell, seq![(KeyCode::Char('O'), KeyModifiers::spec_none()), (KeyCode::End, spec_control())]),
        (Cmd::GotoRow, seq![(KeyCode::Char('#'), KeyModifiers::spec_none())]),
        (Cmd::SortCycle, seq![(KeyCode::Char('s'), KeyModifiers::spec_none())]),
        (Cmd::SortClear, seq![(KeyCode::Char('S'), KeyModifiers::spec_none())]),
        (Cmd::FilterBuild, seq![(KeyCode::Char('f'), KeyModifiers::spec_none())]),
        (Cmd::Filter, seq![(KeyCode::Char('E'), KeyModifiers::spec_none())]),
        (Cmd::FilterThisValue, seq![(KeyCode::Char('='), KeyModifiers::spec_none())]),
        (Cmd::FilterExcludeValue, seq![(KeyCode::Char('!'), KeyModifiers::spec_none())]),
        (Cmd::FilterClear, seq![(KeyCode::Char('F'), KeyModifiers::spec_none())]),
        (Cmd::Sql, seq![(KeyCode::Char('e'), KeyModifiers::spec_none())]),
        (Cmd::Undo, seq![(KeyCode::Char('u'), KeyModifiers::spec_none())]),
        (Cmd::Redo, seq![(KeyCode::Char('U'), KeyModifiers::spec_none())]),
        (Cmd::ResetView, seq![(KeyCode::Char('R'), KeyModifiers::spec_none())]),
        (Cmd::Search, seq![(KeyCode::Char('/'), KeyModifiers::spec_none())]),
        (Cmd::SearchNext, seq![(KeyCode::Char('n'), KeyModifiers::spec_none())]),
        (Cmd::SearchPrev, seq![(KeyCode::Char('N'), KeyModifiers::spec_none())]),
        (Cmd::ToggleMeta, seq![(KeyCode::Char('m'), KeyModifiers::spec_none())]),
        (Cmd::ToggleStats, seq![(KeyCode::Char('i'), KeyModifiers::spec_none())]),
        (Cmd::CyclePanels, seq![(KeyCode::Char('M'), KeyModifiers::spec_none())]),
        (Cmd::CycleBand, seq![(KeyCode::Char('d'), KeyModifiers::spec_none())]),
        (Cmd::InspectCell, seq![(KeyCode::Enter, KeyModifiers::spec_none())]),
        (Cmd::Record, seq![(KeyCode::Char('r'), KeyModifiers::spec_none())]),
        (Cmd::Widen, seq![(KeyCode::Char('>'), KeyModifiers::spec_none())]),
        (Cmd::Narrow, seq![(KeyCode::Char('<'), KeyModifiers::spec_none())]),
        (Cmd::FitWidths, seq![(KeyCode::Char('w'), KeyModifiers::spec_none())]),
        (Cmd::HideColumn, seq![(KeyCode::Char('x'), KeyModifiers::spec_none())]),
        (Cmd::ShowAllColumns, seq![(KeyCode::Char('X'), KeyModifiers::spec_none())]),
        (Cmd::CopyCell, seq![(KeyCode::Char('y'), KeyModifiers::spec_none())]),
        (Cmd::CopyRow, seq![(KeyCode::Char('Y'), KeyModifiers::spec_none())]),
        (Cmd::IndexCsv, seq![(KeyCode::Char('I'), KeyModifiers::spec_none())]),
        (Cmd::ThemeNext, seq![(KeyCode::Char('t'), KeyModifiers::spec_none())]),
        (Cmd::ThemePicker, seq![(KeyCode::Char('T'), KeyModifiers::spec_none())]),
        (Cmd::Settings, seq![(KeyCode::Char(','), KeyModifiers::spec_none())]),
        (Cmd::Help, seq![(KeyCode::Char('?'), KeyModifiers::spec_none()), (KeyCode::F(1), KeyModifiers::spec_none())]),
        (Cmd::Palette, seq![(KeyCode::Char(':'), KeyModifiers::spec_none()), (KeyCode::Char('p'), KeyModifiers::spec_none())]),
        (Cmd::Cancel, seq![(KeyCode::Esc, KeyModifiers::spec_none())]),
        (Cmd::Quit, seq![(KeyCode::Char('q'), KeyModifiers::spec_none()), (KeyCode::Char('c'), spec_control())]),
    ]
}

/// The keys as the help writes them, the description and the group of each
/// entry, in the order of the table.
pub open spec fn text_table() -> Seq<(Seq<char>, Seq<char>, Seq<char>)> {
    seq![
        ("j / ↓"@, "next row"@, "Move"@),
        ("k / ↑"@, "previous row"@, "Move"@),
        ("PgDn / ^F"@, "page down"@, "Move"@),
        ("PgUp / ^B"@, "page up"@, "Move"@),
        ("^D"@, "down half a page"@, "Move"@),
        ("^U"@, "up half a page"@, "Move"@),
        ("J"@, "down one step of rows"@, "Move"@),
        ("K"@, "up one step of rows"@, "Move"@),
        ("L"@, "right one step of columns"@, "Move"@),
        ("H"@, "left one step of columns"@, "Move"@),
        ("g"@, "first row"@, "Move"@),
        ("G"@, "last row"@, "Move"@),
        ("l / → / Tab"@, "next column"@, "Move"@),
        ("h / ← / S-Tab"@, "previous column"@, "Move"@),
        ("a / 0 / ^ / Home"@, "first column of this row"@, "Move"@),
        ("z / $ / End"@, "last column of this row"@, "Move"@),
        ("o / ^Home"@, "back to the start: first row and first column"@, "Move"@),
        ("O / ^End"@, "the far corner: last row and last column"@, "Move"@),
        ("#"@, "jump to row number"@, "Move"@),
        ("s"@, "sort by this column (asc → desc → off)"@, "Query"@),
        ("S"@, "clear all sorting"@, "Query"@),
        ("f"@, "build a filter from menus (no SQL needed)"@, "Query"@),
        ("E"@, "filter rows with a WHERE expression"@, "Query"@),
        ("="@, "keep only the rows with the value in this cell"@, "Query"@),
        ("!"@, "remove the rows with the value in this cell"@, "Query"@),
        ("F"@, "clear the filter"@, "Query"@),
        ("e"@, "edit the SQL query behind the grid"@, "Query"@),
        ("u"@, "undo the last filter, sort or query"@, "Query"@),
        ("U"@, "redo the change that u undid"@, "Query"@),
        ("R"@, "reset to the whole file"@, "Query"@),
        ("/"@, "search all columns"@, "Query"@),
        ("n"@, "next match"@, "Query"@),
        ("N"@, "previous match"@, "Query"@),
        ("m"@, "file metadata panel"@, "Inspect"@),
        ("i"@, "statistics for this column"@, "Inspect"@),
        ("M"@, "cycle the side panels: none, metadata, statistics, both"@, "Inspect"@),
        ("d"@, "column details under the headers: off, compact, detailed"@, "Inspect"@),
        ("Enter"@, "show this cell in full"@, "Inspect"@),
        ("r"@, "show this row as a vertical record, one column per line"@, "Inspect"@),
        (">"@, "widen this column"@, "Columns"@),
        ("<"@, "narrow this column"@, "Columns"@),
        ("w"@, "re-fit all column widths to what is on screen"@, "Columns"@),
        ("x"@, "hide this column"@, "Columns"@),
        ("X"@, "show all hidden columns"@, "Columns"@),
        ("y"@, "copy this cell to the clipboard"@, "Other"@),
        ("Y"@, "copy this row as TSV"@, "Other"@),
        ("I"@, "index this CSV now (makes jumping instant)"@, "Other"@),
        ("t"@, "next theme"@, "Other"@),
        ("T"@, "choose a theme"@, "Other"@),
        (","@, "settings, and what this machine gives"@, "Other"@),
        ("? / F1"@, "this help"@, "Other"@),
        (": / p"@, "run a command by name"@, "Other"@),
        ("Esc"@, "cancel the running query"@, "Other"@),
        ("q / ^C"@, "quit"@, "Other"@),
    ]
}

/// The texts of a list of entries.
pub open spec fn texts_of(bs: Seq<Binding>) -> Seq<(Seq<char>, Seq<char>, Seq<char>)> {
    bs.map_values(|b: Binding| (b.label@, b.desc@, b.group@))
}

/// The commands and the keys of a list of entries.
pub open spec fn keys_of(bs: Seq<Binding>) -> Seq<(Cmd, Seq<(KeyCode, KeyModifiers)>)> {
    bs.map_values(|b: Binding| (b.cmd, b.keys@))
}

fn bind(
    cmd: Cmd,
    keys: Vec<(KeyCode, KeyModifiers)>,
    label: &'static str,
    desc: &'static str,
    group: &'static str,
) -> (r: Binding)
    ensures
        r.cmd == cmd,
        r.keys@ == keys@,
        r.label == label,
        r.desc == desc,
        r.group == group,
{
    Binding { cmd, keys, label, desc, group }
}

/// The one table of commands, keys and descriptions.
///
/// A laptop keyboard does not always have PgUp and PgDn, Home and End, so
/// each command that moves by more than one row or to an end of a row also has
/// a key that a keyboard with no navigation block can reach. The capital
/// letter moves by the step and the small letter by one, so the pairs j/J,
/// k/K, h/H and l/L keep the same direction. The palette does not use ^P,
/// which an editor takes for its own file finder.
pub fn bindings() -> (r: Vec<Binding>)
    ensures
        keys_of(r@) == key_table(),
        texts_of(r@) == text_table(),
        forall|i: int, j: int, k: int|
            0 <= i <= j <= k < r@.len() && #[trigger] r@[i].group@ == #[trigger] r@[k].group@ ==> #[trigger] r@[j].group@
                == r@[i].group@,
{
    let n = KeyModifiers::none();
    let ctrl = KeyModifiers::control();
    let r = vec![
        bind(Cmd::RowDown, vec![(KeyCode::Char('j'), n), (KeyCode::Down, n)], "j / ↓", "next row", "Move"),
        bind(Cmd::RowUp, vec![(KeyCode::Char('k'), n), (KeyCode::Up, n)], "k / ↑", "previous row", "Move"),
        bind(Cmd::PageDown, vec![(KeyCode::PageDown, n), (KeyCode::Char('f'), ctrl)], "PgDn / ^F", "page down", "Move"),
        bind(Cmd::PageUp, vec![(KeyCode::PageUp, n), (KeyCode::Char('b'), ctrl)], "PgUp / ^B", "page up", "Move"),
        bind(Cmd::HalfPageDown, vec![(KeyCode::Char('d'), ctrl)], "^D", "down half a page", "Move"),
        bind(Cmd::HalfPageUp, vec![(KeyCode::Char('u'), ctrl)], "^U", "up half a page", "Move"),
        bind(Cmd::StepDown, vec![(KeyCode::Char('J'), n)], "J", "down one step of rows", "Move"),
        bind(Cmd::StepUp, vec![(KeyCode::Char('K'), n)], "K", "up one step of rows", "Move"),
        bind(Cmd::StepRight, vec![(KeyCode::Char('L'), n)], "L", "right one step of columns", "Move"),
        bind(Cmd::StepLeft, vec![(KeyCode::Char('H'), n)], "H", "left one step of columns", "Move"),
        bind(Cmd::Top, vec![(KeyCode::Char('g'), n)], "g", "first row", "Move"),
        bind(Cmd::Bottom, vec![(KeyCode::Char('G'), n)], "G", "last row", "Move"),
        bind(Cmd::ColRight, vec![(KeyCode::Char('l'), n), (KeyCode::Right, n), (KeyCode::Tab, n)], "l / → / Tab", "next column", "Move"),
        bind(Cmd::ColLeft, vec![(KeyCode::Char('h'), n), (KeyCode::Left, n), (KeyCode::BackTab, n)], "h / ← / S-Tab", "previous column", "Move"),
        bind(Cmd::ColFirst, vec![(KeyCode::Char('a'), n), (KeyCode::Char('0'), n), (KeyCode::Char('^'), n), (KeyCode::Home, n)], "a / 0 / ^ / Home", "first column of this row", "Move"),
        bind(Cmd::ColLast, vec![(KeyCode::Char('z'), n), (KeyCode::Char('$'), n), (KeyCode::End, n)], "z / $ / End", "last column of this row", "Move"),
        bind(Cmd::Origin, vec![(KeyCode::Char('o'), n), (KeyCode::Home, ctrl)], "o / ^Home", "back to the start: first row and first column", "Move"),
        bind(Cmd::LastCell, vec![(KeyCode::Char('O'), n), (KeyCode::End, ctrl)], "O / ^End", "the far corner: last row and last column", "Move"),
        bind(Cmd::GotoRow, vec![(KeyCode::Char('#'), n)], "#", "jump to row number", "Move"),
        bind(Cmd::SortCycle, vec![(KeyCode::Char('s'), n)], "s", "sort by this column (asc → desc → off)", "Query"),
        bind(Cmd::SortClear, vec![(KeyCode::Char('S'), n)], "S", "clear all sorting", "Query"),
        bind(Cmd::FilterBuild, vec![(KeyCode::Char('f'), n)], "f", "build a filter from menus (no SQL needed)", "Query"),
        bind(Cmd::Filter, vec![(KeyCode::Char('E'), n)], "E", "filter rows with a WHERE expression", "Query"),
        bind(Cmd::FilterThisValue, vec![(KeyCode::Char('='), n)], "=", "keep only the rows with the value in this cell", "Query"),
        bind(Cmd::FilterExcludeValue, vec![(KeyCode::Char('!'), n)], "!", "remove the rows with the value in this cell", "Query"),
        bind(Cmd::FilterClear, vec![(KeyCode::Char('F'), n)], "F", "clear the filter", "Query"),
        bind(Cmd::Sql, vec![(KeyCode::Char('e'), n)], "e", "edit the SQL query behind the grid", "Query"),
        bind(Cmd::Undo, vec![(KeyCode::Char('u'), n)], "u", "undo the last filter, sort or query", "Query"),
        bind(Cmd::Redo, vec![(KeyCode::Char('U'), n)], "U", "redo the change that u undid", "Query"),
        bind(Cmd::ResetView, vec![(KeyCode::Char('R'), n)], "R", "reset to the whole file", "Query"),
        bind(Cmd::Search, vec![(KeyCode::Char('/'), n)], "/", "search all columns", "Query"),
        bind(Cmd::SearchNext, vec![(KeyCode::Char('n'), n)], "n", "next match", "Query"),
        bind(Cmd::SearchPrev, vec![(KeyCode::Char('N'), n)], "N", "previous match", "Query"),
        bind(Cmd::ToggleMeta, vec![(KeyCode::Char('m'), n)], "m", "file metadata panel", "Inspect"),
        bind(Cmd::ToggleStats, vec![(KeyCode::Char('i'), n)], "i", "statistics for this column", "Inspect"),
        bind(Cmd::CyclePanels, vec![(KeyCode::Char('M'), n)], "M", "cycle the side panels: none, metadata, statistics, both", "Inspect"),
        bind(Cmd::CycleBand, vec![(KeyCode::Char('d'), n)], "d", "column details under the headers: off, compact, detailed", "Inspect"),
        bind(Cmd::InspectCell, vec![(KeyCode::Enter, n)], "Enter", "show this cell in full", "Inspect"),
        bind(Cmd::Record, vec![(KeyCode::Char('r'), n)], "r", "show this row as a vertical record, one column per line", "Inspect"),
        bind(Cmd::Widen, vec![(KeyCode::Char('>'), n)], ">", "widen this column", "Columns"),
        bind(Cmd::Narrow, vec![(KeyCode::Char('<'), n)], "<", "narrow this column", "Columns"),
        bind(Cmd::FitWidths, vec![(KeyCode::Char('w'), n)], "w", "re-fit all column widths to what is on screen", "Columns"),
        bind(Cmd::HideColumn, vec![(KeyCode::Char('x'), n)], "x", "hide this column", "Columns"),
        bind(Cmd::ShowAllColumns, vec![(KeyCode::Char('X'), n)], "X", "show all hidden columns", "Columns"),
        bind(Cmd::CopyCell, vec![(KeyCode::Char('y'), n)], "y", "copy this cell to the clipboard", "Other"),
        bind(Cmd::CopyRow, vec![(KeyCode::Char('Y'), n)], "Y", "copy this row as TSV", "Other"),
        bind(Cmd::IndexCsv, vec![(KeyCode::Char('I'), n)], "I", "index this CSV now (makes jumping instant)", "Other"),
        bind(Cmd::ThemeNext, vec![(KeyCode::Char('t'), n)], "t", "next theme", "Other"),
        bind(Cmd::ThemePicker, vec![(KeyCode::Char('T'), n)], "T", "choose a theme", "Other"),
        bind(Cmd::Settings, vec![(KeyCode::Char(','), n)], ",", "settings, and what this machine gives", "Other"),
        bind(Cmd::Help, vec![(KeyCode::Char('?'), n), (KeyCode::F(1), n)], "? / F1", "this help", "Other"),
        bind(Cmd::Palette, vec![(KeyCode::Char(':'), n), (KeyCode::Char('p'), n)], ": / p", "run a command by name", "Other"),
        bind(Cmd::Cancel, vec![(KeyCode::Esc, n)], "Esc", "cancel the running query", "Other"),
        bind(Cmd::Quit, vec![(KeyCode::Char('q'), n), (KeyCode::Char('c'), ctrl)], "q / ^C", "quit", "Other"),
    ];
    assert(n == KeyModifiers::spec_none());
    assert(ctrl == spec_control());
    assert(r@[0].keys@ =~= seq![(KeyCode::Char('j'), KeyModifiers::spec_none()), (KeyCode::Down, KeyModifiers::spec_none())]);
    assert(r@[1].keys@ =~= seq![(KeyCode::Char('k'), KeyModifiers::spec_none()), (KeyCode::Up, KeyModifiers::spec_none())]);
    assert(r@[2].keys@ =~= seq![(KeyCode::PageDown, KeyModifiers::spec_none()), (KeyCode::Char('f'), spec_control())]);
    assert(r@[3].keys@ =~= seq![(KeyCode::PageUp, KeyModifiers::spec_none()), (KeyCode::Char('b'), spec_control())]);
    assert(r@[4].keys@ =~= seq![(KeyCode::Char('d'), spec_control())]);
    assert(r@[5].keys@ =~= seq![(KeyCode::Char('u'), spec_control())]);
    assert(r@[6].keys@ =~= seq![(KeyCode::Char('J'), KeyModifiers::spec_none())]);
    assert(r@[7].keys@ =~= seq![(KeyCode::Char('K'), KeyModifiers::spec_none())]);
    assert(r@[8].keys@ =~= seq![(KeyCode::Char('L'), KeyModifiers::spec_none())]);
    assert(r@[9].keys@ =~= seq![(KeyCode::Char('H'), KeyModifiers::spec_none())]);
    assert(r@[10].keys@ =~= seq![(KeyCode::Char('g'), KeyModifiers::spec_none())]);
    assert(r@[11].keys@ =~= seq![(KeyCode::Char('G'), KeyModifiers::spec_none())]);
    assert(r@[12].keys@ =~= seq![(KeyCode::Char('l'), KeyModifiers::spec_none()), (KeyCode::Right, KeyModifiers::spec_none()), (KeyCode::Tab, KeyModifiers::spec_none())]);
    assert(r@[13].keys@ =~= seq![(KeyCode::Char('h'), KeyModifiers::spec_none()), (KeyCode::Left, KeyModifiers::spec_none()), (KeyCode::BackTab, KeyModifiers::spec_none())]);
    assert(r@[14].keys@ =~= seq![(KeyCode::Char('a'), KeyModifiers::spec_none()), (KeyCode::Char('0'), KeyModifiers::spec_none()), (KeyCode::Char('^'), KeyModifiers::spec_none()), (KeyCode::Home, KeyModifiers::spec_none())]);
    assert(r@[15].keys@ =~= seq![(KeyCode::Char('z'), KeyModifiers::spec_none()), (KeyCode::Char('$'), KeyModifiers::spec_none()), (KeyCode::End, KeyModifiers::spec_none())]);
    assert(r@[16].keys@ =~= seq![(KeyCode::Char('o'), KeyModifiers::spec_none()), (KeyCode::Home, spec_control())]);
    assert(r@[17].keys@ =~= seq![(KeyCode::Char('O'), KeyModifiers::spec_none()), (KeyCode::End, spec_control())]);
    assert(r@[18].keys@ =~= seq![(KeyCode::Char('#'), KeyModifiers::spec_none())]);
    assert(r@[19].keys@ =~= seq![(KeyCode::Char('s'), KeyModifiers::spec_none())]);
    assert(r@[20].keys@ =~= seq![(KeyCode::Char('S'), KeyModifiers::spec_none())]);
    assert(r@[21].keys@ =~= seq![(KeyCode::Char('f'), KeyModifiers::spec_none())]);
    assert(r@[22].keys@ =~= seq![(KeyCode::Char('E'), KeyModifiers::spec_none())]);
    assert(r@[23].keys@ =~= seq![(KeyCode::Char('='), KeyModifiers::spec_none())]);
    assert(r@[24].keys@ =~= seq![(KeyCode::Char('!'), KeyModifiers::spec_none())]);
    assert(r@[25].keys@ =~= seq![(KeyCode::Char('F'), KeyModifiers::spec_none())]);
    assert(r@[26].keys@ =~= seq![(KeyCode::Char('e'), KeyModifiers::spec_none())]);
    assert(r@[27].keys@ =~= seq![(KeyCode::Char('u'), KeyModifiers::spec_none())]);
    assert(r@[28].keys@ =~= seq![(KeyCode::Char('U'), KeyModifiers::spec_none())]);
    assert(r@[29].keys@ =~= seq![(KeyCode::Char('R'), KeyModifiers::spec_none())]);
    assert(r@[30].keys@ =~= seq![(KeyCode::Char('/'), KeyModifiers::spec_none())]);
    assert(r@[31].keys@ =~= seq![(KeyCode::Char('n'), KeyModifiers::spec_none())]);
    assert(r@[32].keys@ =~= seq![(KeyCode::Char('N'), KeyModifiers::spec_none())]);
    assert(r@[33].keys@ =~= seq![(KeyCode::Char('m'), KeyModifiers::spec_none())]);
    assert(r@[34].keys@ =~= seq![(KeyCode::Char('i'), KeyModifiers::spec_none())]);
    assert(r@[35].keys@ =~= seq![(KeyCode::Char('M'), KeyModifiers::spec_none())]);
    assert(r@[36].keys@ =~= seq![(KeyCode::Char('d'), KeyModifiers::spec_none())]);
    assert(r@[37].keys@ =~= seq![(KeyCode::Enter, KeyModifiers::spec_none())]);
    assert(r@[38].keys@ =~= seq![(KeyCode::Char('r'), KeyModifiers::spec_none())]);
    assert(r@[39].keys@ =~= seq![(KeyCode::Char('>'), KeyModifiers::spec_none())]);
    assert(r@[40].keys@ =~= seq![(KeyCode::Char('<'), KeyModifiers::spec_none())]);
    assert(r@[41].keys@ =~= seq![(KeyCode::Char('w'), KeyModifiers::spec_none())]);
    assert(r@[42].keys@ =~= seq![(KeyCode::Char('x'), KeyModifiers::spec_none())]);
    assert(r@[43].keys@ =~= seq![(KeyCode::Char('X'), KeyModifiers::spec_none())]);
    assert(r@[44].keys@ =~= seq![(KeyCode::Char('y'), KeyModifiers::spec_none())]);
    assert(r@[45].keys@ =~= seq![(KeyCode::Char('Y'), KeyModifiers::spec_none())]);
    assert(r@[46].keys@ =~= seq![(KeyCode::Char('I'), KeyModifiers::spec_none())]);
    assert(r@[47].keys@ =~= seq![(KeyCode::Char('t'), KeyModifiers::spec_none())]);
    assert(r@[48].keys@ =~= seq![(KeyCode::Char('T'), KeyModifiers::spec_none())]);
    assert(r@[49].keys@ =~= seq![(KeyCode::Char(','), KeyModifiers::spec_none())]);
    assert(r@[50].keys@ =~= seq![(KeyCode::Char('?'), KeyModifiers::spec_none()), (KeyCode::F(1), KeyModifiers::spec_none())]);
    assert(r@[51].keys@ =~= seq![(KeyCode::Char(':'), KeyModifiers::spec_none()), (KeyCode::Char('p'), KeyModifiers::spec_none())]);
    assert(r@[52].keys@ =~= seq![(KeyCode::Esc, KeyModifiers::spec_none())]);
    assert(r@[53].keys@ =~= seq![(KeyCode::Char('q'), KeyModifiers::spec_none()), (KeyCode::Char('c'), spec_control())]);
    assert(keys_of(r@) =~= key_table());
    assert(texts_of(r@) =~= text_table());
    assert forall|i: int, j: int, k: int|
        0 <= i <= j <= k < r@.len() && #[trigger] r@[i].group@ == #[trigger] r@[k].group@ implies #[trigger] r@[j].group@
            == r@[i].group@ by {
        assert(texts_of(r@)[i].2 == r@[i].group@);
        assert(texts_of(r@)[j].2 == r@[j].group@);
        assert(texts_of(r@)[k].2 == r@[k].group@);
        a_group_never_comes_back(i, j, k);
    }
    r
}


/// The groups, in the order that the help overlay shows them.
pub fn groups() -> (r: Vec<&'static str>)
    ensures
        r@.map_values(|g: &str| g@) == seq!["Move"@, "Query"@, "Inspect"@, "Columns"@, "Other"@],
{
    let r = vec!["Move", "Query", "Inspect", "Columns", "Other"];
    assert(r@.map_values(|g: &str| g@) =~= seq!["Move"@, "Query"@, "Inspect"@, "Columns"@, "Other"@]);
    r
}

/// The modifier keys of a key, without the shift key for a character.
///
/// A character that the terminal can print holds its own shift state. The
/// character `G` is the shift key and the key `g`. A test of the shift key
/// would therefore make each binding of a capital letter impossible to match.
pub open spec fn normalised(key: KeyEvent) -> KeyModifiers {
    match key.code {
        KeyCode::Char(_) => KeyModifiers { shift: false, ..key.modifiers },
        _ => key.modifiers,
    }
}

/// Gives `true` when a list of keys holds the key `code` with the modifier
/// keys `mods`.
pub open spec fn has_key(keys: Seq<(KeyCode, KeyModifiers)>, code: KeyCode, mods: KeyModifiers) -> bool {
    exists|i: int| 0 <= i < keys.len() && keys[i] == (code, mods)
}

/// The command of the first entry of the table that has the key.
pub open spec fn first_cmd(
    t: Seq<(Cmd, Seq<(KeyCode, KeyModifiers)>)>,
    code: KeyCode,
    mods: KeyModifiers,
) -> Option<Cmd>
    decreases t.len(),
{
    if t.len() == 0 {
        None
    } else if has_key(t[0].1, code, mods) {
        Some(t[0].0)
    } else {
        first_cmd(t.drop_first(), code, mods)
    }
}

fn normalise(key: &KeyEvent) -> (r: KeyModifiers)
    ensures
        r == normalised(*key),
{
    match key.code {
        KeyCode::Char(_) => KeyModifiers { shift: false, ..key.modifiers },
        _ => key.modifiers,
    }
}

/// Finds the command for a key. Gives `None` when no command has that key.
pub fn resolve(key: &KeyEvent) -> (r: Option<Cmd>)
    ensures
        r == first_cmd(key_table(), key.code, normalised(*key)),
{
    let mods = normalise(key);
    let table = bindings();
    let mut i: usize = 0;
    assert(key_table().skip(0) =~= key_table());
    while i < table.len()
        invariant
            i <= table@.len(),
            keys_of(table@) == key_table(),
            mods == normalised(*key),
            first_cmd(key_table(), key.code, mods) == first_cmd(
                key_table().skip(i as int),
                key.code,
                mods,
            ),
        decreases table@.len() - i,
    {
        let b = &table[i];
        let mut found = false;
        let mut k: usize = 0;
        while k < b.keys.len()
            invariant
                k <= b.keys@.len(),
                found == (exists|m: int| 0 <= m < k && b.keys@[m] == (key.code, mods)),
            decreases b.keys@.len() - k,
        {
            let (code, m) = b.keys[k];
            if code == key.code && m == mods {
                found = true;
            }
            k += 1;
        }
        proof {
            let t = key_table().skip(i as int);
            assert(t[0] == keys_of(table@)[i as int]);
            assert(t.drop_first() =~= key_table().skip(i + 1));
        }
        if found {
            assert(has_key(key_table().skip(i as int)[0].1, key.code, mods));
            assert(key_table().skip(i as int)[0].0 == b.cmd);
            return Some(b.cmd);
        }
        i += 1;
    }
    proof {
        assert(key_table().skip(i as int).len() == 0);
    }
    None
}

/// The first entry of the table for a command, as its position.
pub open spec fn entry_of(t: Seq<(Cmd, Seq<(KeyCode, KeyModifiers)>)>, cmd: Cmd, from: int) -> Option<int>
    decreases t.len() - from,
{
    if from < 0 || from >= t.len() {
        None
    } else if t[from].0 == cmd {
        Some(from)
    } else {
        entry_of(t, cmd, from + 1)
    }
}

/// Finds the table entry of a command.
pub fn binding(cmd: Cmd) -> (r: Option<Binding>)
    ensures
        match entry_of(key_table(), cmd, 0) {
            Option::Some(i) => r matches Some(b) && (b.cmd, b.keys@) == key_table()[i] && (
            b.label@,
            b.desc@,
            b.group@,
        ) == text_table()[i],
            Option::None => r is None,
        },
        r matches Some(b) && b.cmd == cmd && b.desc@.len() > 0 && b.label@.len() > 0 && !white_space(
            b.label@[0],
        ) && !white_space(b.label@.last()) && b.keys@.len() > 0 && seps_from(b.label@, 0) + 1
            == b.keys@.len() && group_names().contains(b.group@),
{
    let mut table = bindings();
    let mut i: usize = 0;
    while i < table.len()
        invariant
            i <= table@.len(),
            keys_of(table@) == key_table(),
            texts_of(table@) == text_table(),
            entry_of(key_table(), cmd, 0) == entry_of(key_table(), cmd, i as int),
        decreases table@.len() - i,
    {
        if table[i].cmd == cmd {
            assert(keys_of(table@)[i as int] == (table@[i as int].cmd, table@[i as int].keys@));
            assert(texts_of(table@)[i as int] == (
                table@[i as int].label@,
                table@[i as int].desc@,
                table@[i as int].group@,
            ));
            proof {
                every_command_is_discoverable(cmd);
                assert(entry_of(key_table(), cmd, i as int) == Some(i as int));
                assert(entry_ok(i as int));
            }
            let b = table.remove(i);
            return Some(b);
        }
        i += 1;
    }
    proof {
        every_command_is_discoverable(cmd);
        assert(entry_of(key_table(), cmd, i as int) is None);
    }
    None
}

/// Gives `true` when the characters of `want` occur in `hay` in the same
/// order, each one after the one before it. The characters do not need to
/// follow each other.
pub open spec fn in_order(want: Seq<char>, hay: Seq<char>) -> bool
    decreases hay.len(),
{
    if want.len() == 0 {
        true
    } else if hay.len() == 0 {
        false
    } else if hay[0] == want[0] {
        in_order(want.drop_first(), hay.drop_first())
    } else {
        in_order(want, hay.drop_first())
    }
}

/// The characters of a text that are not white space.
pub open spec fn without_space(s: Seq<char>) -> Seq<char> {
    s.filter(|c: char| !white_space(c))
}

/// The rule of the palette: an empty query matches each text, and another
/// query matches a text when its small letters without white space occur in
/// the small letters of the text, in order.
pub open spec fn fuzzy(needle: Seq<char>, hay: Seq<char>) -> bool {
    needle.len() == 0 || in_order(without_space(lower_text(needle)), lower_text(hay))
}

/// Gives `true` when each character of `needle` occurs in `hay`, in the same
/// order. The characters do not need to follow each other, so `tp` finds
/// "theme picker".
pub fn fuzzy_match(needle: &str, hay: &str) -> (r: bool)
    ensures
        r == fuzzy(needle@, hay@),
        (crate::chars::all_ascii(needle@) && crate::chars::all_ascii(hay@)) ==> r == (needle@.len() == 0
            || in_order(without_space(crate::chars::ascii_lowered(needle@)), crate::chars::ascii_lowered(hay@))),
{
    if needle.is_empty() {
        return true;
    }
    let h = chars_of(lowercase_text(hay).as_str());
    let nl = chars_of(lowercase_text(needle).as_str());
    let mut want: Vec<char> = Vec::new();
    let mut i: usize = 0;
    while i < nl.len()
        invariant
            i <= nl@.len(),
            nl@ == lower_text(needle@),
            want@ == without_space(nl@.take(i as int)),
            crate::chars::all_ascii(hay@) ==> lower_text(hay@) == crate::chars::ascii_lowered(hay@),
            crate::chars::all_ascii(needle@) ==> lower_text(needle@) == crate::chars::ascii_lowered(needle@),
        decreases nl@.len() - i,
    {
        proof {
            assert(nl@.take(i + 1) =~= nl@.take(i as int).push(nl@[i as int]));
            nl@.take(i as int).lemma_filter_push(nl@[i as int], |c: char| !white_space(c));
        }
        if !crate::chars::is_whitespace(nl[i]) {
            want.push(nl[i]);
        }
        i += 1;
    }
    assert(nl@.take(i as int) =~= nl@);
    // Each character of the query takes the first match after the match of
    // the character before it.
    let mut a: usize = 0;
    let mut b: usize = 0;
    assert(want@.skip(0) =~= want@);
    assert(h@.skip(0) =~= h@);
    while a < want.len()
        invariant
            a <= want@.len(),
            b <= h@.len(),
            h@ == lower_text(hay@),
            needle@.len() != 0,
            want@ == without_space(lower_text(needle@)),
            crate::chars::all_ascii(hay@) ==> lower_text(hay@) == crate::chars::ascii_lowered(hay@),
            crate::chars::all_ascii(needle@) ==> lower_text(needle@) == crate::chars::ascii_lowered(needle@),
            in_order(want@, h@) == in_order(want@.skip(a as int), h@.skip(b as int)),
        decreases want@.len() - a, h@.len() - b,
    {
        if b >= h.len() {
            assert(h@.skip(b as int).len() == 0);
            assert(want@.skip(a as int).len() > 0);
            assert(!in_order(want@.skip(a as int), h@.skip(b as int)));
            assert(!in_order(want@, h@));
            assert(needle@.len() != 0);
            return false;
        }
        let same = h[b] == want[a];
        proof {
            let ws = want@.skip(a as int);
            let hs = h@.skip(b as int);
            assert(hs[0] == h@[b as int]);
            assert(ws[0] == want@[a as int]);
            assert(hs.drop_first() =~= h@.skip(b + 1));
            assert(ws.drop_first() =~= want@.skip(a + 1));
        }
        if same {
            a += 1;
        }
        b += 1;
    }
    assert(want@.skip(a as int).len() == 0);
    true
}

} // verus!

verus! {

/// Each command of the viewer has an entry in the table, so the help and the
/// palette offer each of them, and no command hides behind a key that the
/// user must know before.
pub proof fn every_command_has_an_entry(cmd: Cmd)
    ensures
        entry_of(key_table(), cmd, 0) is Some,
{
    reveal_with_fuel(entry_of, 56);
}

/// The groups of the help, in their order.
pub open spec fn group_names() -> Seq<Seq<char>> {
    seq!["Move"@, "Query"@, "Inspect"@, "Columns"@, "Other"@]
}

/// The position in [`group_names`] of the group of the entry `i` of the
/// table.
pub open spec fn block_of(i: int) -> int {
    if i < 19 {
        0
    } else if i < 33 {
        1
    } else if i < 39 {
        2
    } else if i < 44 {
        3
    } else {
        4
    }
}

/// The table holds the groups one after the other.
pub(crate) proof fn lemma_groups_in_blocks()
    ensures
        text_table().len() == 54,
        forall|i: int| 0 <= i < 54 ==> #[trigger] text_table()[i].2 == group_names()[block_of(i)],
{
    assert(text_table()[0].2 == group_names()[block_of(0)]);
    assert(text_table()[1].2 == group_names()[block_of(1)]);
    assert(text_table()[2].2 == group_names()[block_of(2)]);
    assert(text_table()[3].2 == group_names()[block_of(3)]);
    assert(text_table()[4].2 == group_names()[block_of(4)]);
    assert(text_table()[5].2 == group_names()[block_of(5)]);
    assert(text_table()[6].2 == group_names()[block_of(6)]);
    assert(text_table()[7].2 == group_names()[block_of(7)]);
    assert(text_table()[8].2 == group_names()[block_of(8)]);
    assert(text_table()[9].2 == group_names()[block_of(9)]);
    assert(text_table()[10].2 == group_names()[block_of(10)]);
    assert(text_table()[11].2 == group_names()[block_of(11)]);
    assert(text_table()[12].2 == group_names()[block_of(12)]);
    assert(text_table()[13].2 == group_names()[block_of(13)]);
    assert(text_table()[14].2 == group_names()[block_of(14)]);
    assert(text_table()[15].2 == group_names()[block_of(15)]);
    assert(text_table()[16].2 == group_names()[block_of(16)]);
    assert(text_table()[17].2 == group_names()[block_of(17)]);
    assert(text_table()[18].2 == group_names()[block_of(18)]);
    assert(text_table()[19].2 == group_names()[block_of(19)]);
    assert(text_table()[20].2 == group_names()[block_of(20)]);
    assert(text_table()[21].2 == group_names()[block_of(21)]);
    assert(text_table()[22].2 == group_names()[block_of(22)]);
    assert(text_table()[23].2 == group_names()[block_of(23)]);
    assert(text_table()[24].2 == group_names()[block_of(24)]);
    assert(text_table()[25].2 == group_names()[block_of(25)]);
    assert(text_table()[26].2 == group_names()[block_of(26)]);
    assert(text_table()[27].2 == group_names()[block_of(27)]);
    assert(text_table()[28].2 == group_names()[block_of(28)]);
    assert(text_table()[29].2 == group_names()[block_of(29)]);
    assert(text_table()[30].2 == group_names()[block_of(30)]);
    assert(text_table()[31].2 == group_names()[block_of(31)]);
    assert(text_table()[32].2 == group_names()[block_of(32)]);
    assert(text_table()[33].2 == group_names()[block_of(33)]);
    assert(text_table()[34].2 == group_names()[block_of(34)]);
    assert(text_table()[35].2 == group_names()[block_of(35)]);
    assert(text_table()[36].2 == group_names()[block_of(36)]);
    assert(text_table()[37].2 == group_names()[block_of(37)]);
    assert(text_table()[38].2 == group_names()[block_of(38)]);
    assert(text_table()[39].2 == group_names()[block_of(39)]);
    assert(text_table()[40].2 == group_names()[block_of(40)]);
    assert(text_table()[41].2 == group_names()[block_of(41)]);
    assert(text_table()[42].2 == group_names()[block_of(42)]);
    assert(text_table()[43].2 == group_names()[block_of(43)]);
    assert(text_table()[44].2 == group_names()[block_of(44)]);
    assert(text_table()[45].2 == group_names()[block_of(45)]);
    assert(text_table()[46].2 == group_names()[block_of(46)]);
    assert(text_table()[47].2 == group_names()[block_of(47)]);
    assert(text_table()[48].2 == group_names()[block_of(48)]);
    assert(text_table()[49].2 == group_names()[block_of(49)]);
    assert(text_table()[50].2 == group_names()[block_of(50)]);
    assert(text_table()[51].2 == group_names()[block_of(51)]);
    assert(text_table()[52].2 == group_names()[block_of(52)]);
    assert(text_table()[53].2 == group_names()[block_of(53)]);
    assert forall|i: int| 0 <= i < 54 implies #[trigger] text_table()[i].2 == group_names()[block_of(i)] by {
        if i == 0 { assert(text_table()[0].2 == group_names()[block_of(0)]); }
        if i == 1 { assert(text_table()[1].2 == group_names()[block_of(1)]); }
        if i == 2 { assert(text_table()[2].2 == group_names()[block_of(2)]); }
        if i == 3 { assert(text_table()[3].2 == group_names()[block_of(3)]); }
        if i == 4 { assert(text_table()[4].2 == group_names()[block_of(4)]); }
        if i == 5 { assert(text_table()[5].2 == group_names()[block_of(5)]); }
        if i == 6 { assert(text_table()[6].2 == group_names()[block_of(6)]); }
        if i == 7 { assert(text_table()[7].2 == group_names()[block_of(7)]); }
        if i == 8 { assert(text_table()[8].2 == group_names()[block_of(8)]); }
        if i == 9 { assert(text_table()[9].2 == group_names()[block_of(9)]); }
        if i == 10 { assert(text_table()[10].2 == group_names()[block_of(10)]); }
        if i == 11 { assert(text_table()[11].2 == group_names()[block_of(11)]); }
        if i == 12 { assert(text_table()[12].2 == group_names()[block_of(12)]); }
        if i == 13 { assert(text_table()[13].2 == group_names()[block_of(13)]); }
        if i == 14 { assert(text_table()[14].2 == group_names()[block_of(14)]); }
        if i == 15 { assert(text_table()[15].2 == group_names()[block_of(15)]); }
        if i == 16 { assert(text_table()[16].2 == group_names()[block_of(16)]); }
        if i == 17 { assert(text_table()[17].2 == group_names()[block_of(17)]); }
        if i == 18 { assert(text_table()[18].2 == group_names()[block_of(18)]); }
        if i == 19 { assert(text_table()[19].2 == group_names()[block_of(19)]); }
        if i == 20 { assert(text_table()[20].2 == group_names()[block_of(20)]); }
        if i == 21 { assert(text_table()[21].2 == group_names()[block_of(21)]); }
        if i == 22 { assert(text_table()[22].2 == group_names()[block_of(22)]); }
        if i == 23 { assert(text_table()[23].2 == group_names()[block_of(23)]); }
        if i == 24 { assert(text_table()[24].2 == group_names()[block_of(24)]); }
        if i == 25 { assert(text_table()[25].2 == group_names()[block_of(25)]); }
        if i == 26 { assert(text_table()[26].2 == group_names()[block_of(26)]); }
        if i == 27 { assert(text_table()[27].2 == group_names()[block_of(27)]); }
        if i == 28 { assert(text_table()[28].2 == group_names()[block_of(28)]); }
        if i == 29 { assert(text_table()[29].2 == group_names()[block_of(29)]); }
        if i == 30 { assert(text_table()[30].2 == group_names()[block_of(30)]); }
        if i == 31 { assert(text_table()[31].2 == group_names()[block_of(31)]); }
        if i == 32 { assert(text_table()[32].2 == group_names()[block_of(32)]); }
        if i == 33 { assert(text_table()[33].2 == group_names()[block_of(33)]); }
        if i == 34 { assert(text_table()[34].2 == group_names()[block_of(34)]); }
        if i == 35 { assert(text_table()[35].2 == group_names()[block_of(35)]); }
        if i == 36 { assert(text_table()[36].2 == group_names()[block_of(36)]); }
        if i == 37 { assert(text_table()[37].2 == group_names()[block_of(37)]); }
        if i == 38 { assert(text_table()[38].2 == group_names()[block_of(38)]); }
        if i == 39 { assert(text_table()[39].2 == group_names()[block_of(39)]); }
        if i == 40 { assert(text_table()[40].2 == group_names()[block_of(40)]); }
        if i == 41 { assert(text_table()[41].2 == group_names()[block_of(41)]); }
        if i == 42 { assert(text_table()[42].2 == group_names()[block_of(42)]); }
        if i == 43 { assert(text_table()[43].2 == group_names()[block_of(43)]); }
        if i == 44 { assert(text_table()[44].2 == group_names()[block_of(44)]); }
        if i == 45 { assert(text_table()[45].2 == group_names()[block_of(45)]); }
        if i == 46 { assert(text_table()[46].2 == group_names()[block_of(46)]); }
        if i == 47 { assert(text_table()[47].2 == group_names()[block_of(47)]); }
        if i == 48 { assert(text_table()[48].2 == group_names()[block_of(48)]); }
        if i == 49 { assert(text_table()[49].2 == group_names()[block_of(49)]); }
        if i == 50 { assert(text_table()[50].2 == group_names()[block_of(50)]); }
        if i == 51 { assert(text_table()[51].2 == group_names()[block_of(51)]); }
        if i == 52 { assert(text_table()[52].2 == group_names()[block_of(52)]); }
        if i == 53 { assert(text_table()[53].2 == group_names()[block_of(53)]); }
    }
}

/// The names of the groups differ from each other.
proof fn lemma_group_names_differ(a: int, b: int)
    requires
        0 <= a < 5,
        0 <= b < 5,
        a != b,
    ensures
        group_names()[a] != group_names()[b],
{
    reveal_strlit("Move");
    reveal_strlit("Query");
    reveal_strlit("Inspect");
    reveal_strlit("Columns");
    reveal_strlit("Other");
    assert(group_names()[a].len() != group_names()[b].len() || group_names()[a][0] != group_names()[b][0]);
}

/// The commands of one group follow each other in the table: a group never
/// comes back after another one. The palette writes a heading at each change
/// of group, so this gives each group one heading.
pub proof fn a_group_never_comes_back(i: int, j: int, k: int)
    requires
        0 <= i <= j <= k < text_table().len(),
        text_table()[i].2 == text_table()[k].2,
    ensures
        text_table()[j].2 == text_table()[i].2,
{
    lemma_groups_in_blocks();
    if block_of(i) != block_of(k) {
        lemma_group_names_differ(block_of(i), block_of(k));
    }
    assert(block_of(i) <= block_of(j) <= block_of(k));
}

} // verus!

verus! {

/// The number of separators ` / ` in a label of keys from the position `i`
/// on, each one after the one before it, as `str::split` finds them.
pub open spec fn seps_from(s: Seq<char>, i: int) -> nat
    decreases s.len() - i,
{
    if i < 0 || i + 3 > s.len() {
        0
    } else if s[i] == ' ' && s[i + 1] == '/' && s[i + 2] == ' ' {
        1 + seps_from(s, i + 3)
    } else {
        seps_from(s, i + 1)
    }
}

/// Gives `true` when the entry `i` of the table can be found: it has a
/// description, a label with no white space at its ends that names as many
/// keys as the entry has (`str::split` on ` / ` gives one part for each key),
/// one key at the least, and a group of the help.
pub open spec fn entry_ok(i: int) -> bool {
    let label = text_table()[i].0;
    let desc = text_table()[i].1;
    let keys = key_table()[i].1;
    &&& desc.len() > 0
    &&& label.len() > 0
    &&& !white_space(label[0])
    &&& !white_space(label.last())
    &&& keys.len() > 0
    &&& seps_from(label, 0) + 1 == keys.len()
    &&& group_names().contains(text_table()[i].2)
}
/// The entries 0 to 13 of the table can be found.
#[verifier::spinoff_prover]
#[verifier::rlimit(60)]
proof fn lemma_entries_0()
    ensures
        forall|i: int| 0 <= i < 14 ==> #[trigger] entry_ok(i),
{
    reveal_with_fuel(seps_from, 20);
    assert(entry_ok(0)) by {
        reveal_strlit("j / ↓");
        reveal_strlit("next row");
        assert(group_names()[0] == text_table()[0].2);
    }
    assert(entry_ok(1)) by {
        reveal_strlit("k / ↑");
        reveal_strlit("previous row");
        assert(group_names()[0] == text_table()[1].2);
    }
    assert(entry_ok(2)) by {
        reveal_strlit("PgDn / ^F");
        reveal_strlit("page down");
        assert(group_names()[0] == text_table()[2].2);
    }
    assert(entry_ok(3)) by {
        reveal_strlit("PgUp / ^B");
        reveal_strlit("page up");
        assert(group_names()[0] == text_table()[3].2);
    }
    assert(entry_ok(4)) by {
        reveal_strlit("^D");
        reveal_strlit("down half a page");
        assert(group_names()[0] == text_table()[4].2);
    }
    assert(entry_ok(5)) by {
        reveal_strlit("^U");
        reveal_strlit("up half a page");
        assert(group_names()[0] == text_table()[5].2);
    }
    assert(entry_ok(6)) by {
        reveal_strlit("J");
        reveal_strlit("down one step of rows");
        assert(group_names()[0] == text_table()[6].2);
    }
    assert(entry_ok(7)) by {
        reveal_strlit("K");
        reveal_strlit("up one step of rows");
        assert(group_names()[0] == text_table()[7].2);
    }
    assert(entry_ok(8)) by {
        reveal_strlit("L");
        reveal_strlit("right one step of columns");
        assert(group_names()[0] == text_table()[8].2);
    }
    assert(entry_ok(9)) by {
        reveal_strlit("H");
        reveal_strlit("left one step of columns");
        assert(group_names()[0] == text_table()[9].2);
    }
    assert(entry_ok(10)) by {
        reveal_strlit("g");
        reveal_strlit("first row");
        assert(group_names()[0] == text_table()[10].2);
    }
    assert(entry_ok(11)) by {
        reveal_strlit("G");
        reveal_strlit("last row");
        assert(group_names()[0] == text_table()[11].2);
    }
    assert(entry_ok(12)) by {
        reveal_strlit("l / → / Tab");
        reveal_strlit("next column");
        assert(group_names()[0] == text_table()[12].2);
    }
    assert(entry_ok(13)) by {
        reveal_strlit("h / ← / S-Tab");
        reveal_strlit("previous column");
        assert(group_names()[0] == text_table()[13].2);
    }
    assert forall|i: int| 0 <= i < 14 implies #[trigger] entry_ok(i) by {
        if i == 0 {}
        if i == 1 {}
        if i == 2 {}
        if i == 3 {}
        if i == 4 {}
        if i == 5 {}
        if i == 6 {}
        if i == 7 {}
        if i == 8 {}
        if i == 9 {}
        if i == 10 {}
        if i == 11 {}
        if i == 12 {}
        if i == 13 {}
    }
}

/// The entries 14 to 27 of the table can be found.
#[verifier::spinoff_prover]
#[verifier::rlimit(60)]
proof fn lemma_entries_1()
    ensures
        forall|i: int| 14 <= i < 28 ==> #[trigger] entry_ok(i),
{
    reveal_with_fuel(seps_from, 20);
    assert(entry_ok(14)) by {
        reveal_strlit("a / 0 / ^ / Home");
        reveal_strlit("first column of this row");
        assert(group_names()[0] == text_table()[14].2);
    }
    assert(entry_ok(15)) by {
        reveal_strlit("z / $ / End");
        reveal_strlit("last column of this row");
        assert(group_names()[0] == text_table()[15].2);
    }
    assert(entry_ok(16)) by {
        reveal_strlit("o / ^Home");
        reveal_strlit("back to the start: first row and first column");
        assert(group_names()[0] == text_table()[16].2);
    }
    assert(entry_ok(17)) by {
        reveal_strlit("O / ^End");
        reveal_strlit("the far corner: last row and last column");
        assert(group_names()[0] == text_table()[17].2);
    }
    assert(entry_ok(18)) by {
        reveal_strlit("#");
        reveal_strlit("jump to row number");
        assert(group_names()[0] == text_table()[18].2);
    }
    assert(entry_ok(19)) by {
        reveal_strlit("s");
        reveal_strlit("sort by this column (asc → desc → off)");
        assert(group_names()[1] == text_table()[19].2);
    }
    assert(entry_ok(20)) by {
        reveal_strlit("S");
        reveal_strlit("clear all sorting");
        assert(group_names()[1] == text_table()[20].2);
    }
    assert(entry_ok(21)) by {
        reveal_strlit("f");
        reveal_strlit("build a filter from menus (no SQL needed)");
        assert(group_names()[1] == text_table()[21].2);
    }
    assert(entry_ok(22)) by {
        reveal_strlit("E");
        reveal_strlit("filter rows with a WHERE expression");
        assert(group_names()[1] == text_table()[22].2);
    }
    assert(entry_ok(23)) by {
        reveal_strlit("=");
        reveal_strlit("keep only the rows with the value in this cell");
        assert(group_names()[1] == text_table()[23].2);
    }
    assert(entry_ok(24)) by {
        reveal_strlit("!");
        reveal_strlit("remove the rows with the value in this cell");
        assert(group_names()[1] == text_table()[24].2);
    }
    assert(entry_ok(25)) by {
        reveal_strlit("F");
        reveal_strlit("clear the filter");
        assert(group_names()[1] == text_table()[25].2);
    }
    assert(entry_ok(26)) by {
        reveal_strlit("e");
        reveal_strlit("edit the SQL query behind the grid");
        assert(group_names()[1] == text_table()[26].2);
    }
    assert(entry_ok(27)) by {
        reveal_strlit("u");
        reveal_strlit("undo the last filter, sort or query");
        assert(group_names()[1] == text_table()[27].2);
    }
    assert forall|i: int| 14 <= i < 28 implies #[trigger] entry_ok(i) by {
        if i == 14 {}
        if i == 15 {}
        if i == 16 {}
        if i == 17 {}
        if i == 18 {}
        if i == 19 {}
        if i == 20 {}
        if i == 21 {}
        if i == 22 {}
        if i == 23 {}
        if i == 24 {}
        if i == 25 {}
        if i == 26 {}
        if i == 27 {}
    }
}

/// The entries 28 to 41 of the table can be found.
#[verifier::spinoff_prover]
#[verifier::rlimit(60)]
proof fn lemma_entries_2()
    ensures
        forall|i: int| 28 <= i < 42 ==> #[trigger] entry_ok(i),
{
    reveal_with_fuel(seps_from, 20);
    assert(entry_ok(28)) by {
        reveal_strlit("U");
        reveal_strlit("redo the change that u undid");
        assert(group_names()[1] == text_table()[28].2);
    }
    assert(entry_ok(29)) by {
        reveal_strlit("R");
        reveal_strlit("reset to the whole file");
        assert(group_names()[1] == text_table()[29].2);
    }
    assert(entry_ok(30)) by {
        reveal_strlit("/");
        reveal_strlit("search all columns");
        assert(group_names()[1] == text_table()[30].2);
    }
    assert(entry_ok(31)) by {
        reveal_strlit("n");
        reveal_strlit("next match");
        assert(group_names()[1] == text_table()[31].2);
    }
    assert(entry_ok(32)) by {
        reveal_strlit("N");
        reveal_strlit("previous match");
        assert(group_names()[1] == text_table()[32].2);
    }
    assert(entry_ok(33)) by {
        reveal_strlit("m");
        reveal_strlit("file metadata panel");
        assert(group_names()[2] == text_table()[33].2);
    }
    assert(entry_ok(34)) by {
        reveal_strlit("i");
        reveal_strlit("statistics for this column");
        assert(group_names()[2] == text_table()[34].2);
    }
    assert(entry_ok(35)) by {
        reveal_strlit("M");
        reveal_strlit("cycle the side panels: none, metadata, statistics, both");
        assert(group_names()[2] == text_table()[35].2);
    }
    assert(entry_ok(36)) by {
        reveal_strlit("d");
        reveal_strlit("column details under the headers: off, compact, detailed");
        assert(group_names()[2] == text_table()[36].2);
    }
    assert(entry_ok(37)) by {
        reveal_strlit("Enter");
        reveal_strlit("show this cell in full");
        assert(group_names()[2] == text_table()[37].2);
    }
    assert(entry_ok(38)) by {
        reveal_strlit("r");
        reveal_strlit("show this row as a vertical record, one column per line");
        assert(group_names()[2] == text_table()[38].2);
    }
    assert(entry_ok(39)) by {
        reveal_strlit(">");
        reveal_strlit("widen this column");
        assert(group_names()[3] == text_table()[39].2);
    }
    assert(entry_ok(40)) by {
        reveal_strlit("<");
        reveal_strlit("narrow this column");
        assert(group_names()[3] == text_table()[40].2);
    }
    assert(entry_ok(41)) by {
        reveal_strlit("w");
        reveal_strlit("re-fit all column widths to what is on screen");
        assert(group_names()[3] == text_table()[41].2);
    }
    assert forall|i: int| 28 <= i < 42 implies #[trigger] entry_ok(i) by {
        if i == 28 {}
        if i == 29 {}
        if i == 30 {}
        if i == 31 {}
        if i == 32 {}
        if i == 33 {}
        if i == 34 {}
        if i == 35 {}
        if i == 36 {}
        if i == 37 {}
        if i == 38 {}
        if i == 39 {}
        if i == 40 {}
        if i == 41 {}
    }
}

/// The entries 42 to 53 of the table can be found.
#[verifier::spinoff_prover]
#[verifier::rlimit(60)]
proof fn lemma_entries_3()
    ensures
        forall|i: int| 42 <= i < 54 ==> #[trigger] entry_ok(i),
{
    reveal_with_fuel(seps_from, 20);
    assert(entry_ok(42)) by {
        reveal_strlit("x");
        reveal_strlit("hide this column");
        assert(group_names()[3] == text_table()[42].2);
    }
    assert(entry_ok(43)) by {
        reveal_strlit("X");
        reveal_strlit("show all hidden columns");
        assert(group_names()[3] == text_table()[43].2);
    }
    assert(entry_ok(44)) by {
        reveal_strlit("y");
        reveal_strlit("copy this cell to the clipboard");
        assert(group_names()[4] == text_table()[44].2);
    }
    assert(entry_ok(45)) by {
        reveal_strlit("Y");
        reveal_strlit("copy this row as TSV");
        assert(group_names()[4] == text_table()[45].2);
    }
    assert(entry_ok(46)) by {
        reveal_strlit("I");
        reveal_strlit("index this CSV now (makes jumping instant)");
        assert(group_names()[4] == text_table()[46].2);
    }
    assert(entry_ok(47)) by {
        reveal_strlit("t");
        reveal_strlit("next theme");
        assert(group_names()[4] == text_table()[47].2);
    }
    assert(entry_ok(48)) by {
        reveal_strlit("T");
        reveal_strlit("choose a theme");
        assert(group_names()[4] == text_table()[48].2);
    }
    assert(entry_ok(49)) by {
        reveal_strlit(",");
        reveal_strlit("settings, and what this machine gives");
        assert(group_names()[4] == text_table()[49].2);
    }
    assert(entry_ok(50)) by {
        reveal_strlit("? / F1");
        reveal_strlit("this help");
        assert(group_names()[4] == text_table()[50].2);
    }
    assert(entry_ok(51)) by {
        reveal_strlit(": / p");
        reveal_strlit("run a command by name");
        assert(group_names()[4] == text_table()[51].2);
    }
    assert(entry_ok(52)) by {
        reveal_strlit("Esc");
        reveal_strlit("cancel the running query");
        assert(group_names()[4] == text_table()[52].2);
    }
    assert(entry_ok(53)) by {
        reveal_strlit("q / ^C");
        reveal_strlit("quit");
        assert(group_names()[4] == text_table()[53].2);
    }
    assert forall|i: int| 42 <= i < 54 implies #[trigger] entry_ok(i) by {
        if i == 42 {}
        if i == 43 {}
        if i == 44 {}
        if i == 45 {}
        if i == 46 {}
        if i == 47 {}
        if i == 48 {}
        if i == 49 {}
        if i == 50 {}
        if i == 51 {}
        if i == 52 {}
        if i == 53 {}
    }
}

/// The entry of a command is found at a position of the table that holds
/// that command.
pub proof fn lemma_entry_of(t: Seq<(Cmd, Seq<(KeyCode, KeyModifiers)>)>, cmd: Cmd, from: int)
    requires
        from >= 0,
    ensures
        entry_of(t, cmd, from) matches Some(i) ==> from <= i < t.len() && t[i].0 == cmd,
    decreases t.len() - from,
{
    if from < t.len() && t[from].0 != cmd {
        lemma_entry_of(t, cmd, from + 1);
    }
}

/// Each command can be found in the help and the palette: its entry holds
/// the command, a description, a label of its keys with no white space at
/// its ends and one part for each key, one key at the least, and a group of
/// the help.
pub proof fn every_command_is_discoverable(cmd: Cmd)
    ensures
        entry_of(key_table(), cmd, 0) matches Some(i) && key_table()[i].0 == cmd && entry_ok(i),
{
    every_command_has_an_entry(cmd);
    lemma_entry_of(key_table(), cmd, 0);
    lemma_entries_0();
    lemma_entries_1();
    lemma_entries_2();
    lemma_entries_3();
    let i = entry_of(key_table(), cmd, 0)->0;
    assert(entry_ok(i));
}

} // verus!
