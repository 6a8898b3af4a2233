//! The chooser: the screen that lists the data files near the user, or the
//! tables of one database, and opens one.
//!
//! The chooser reads no directory itself. Each key and each mouse event gives
//! a [`Request`]; the program reads the directory that a request names and
//! hands the entries to [`Browser::show_dir`]. The list, the find box, the
//! cursor, the window on the screen and the double click are all decided
//! here, over the entries as values.

use vstd::prelude::*;

use crate::chars::{chars_of, contains_chars, decimal, decimal_text, holds_text, lower_text, lowercase_text, trimmed, trimmed_chars};
use crate::app::{Clicks, Press};
use crate::app::{lex_lt, offered};
use crate::input::{handled, reset_to, Action, LineInput, LineState};
use crate::keys::{plain, KeyCode, KeyEvent, MouseButton, MouseEvent, MouseEventKind};
use std::path::PathBuf;
use std::time::SystemTime;

verus! {

broadcast use vstd::string::group_string_axioms;

/// The time of the wall clock of the machine, as `std::time::SystemTime`. A
/// value of it is opaque to the proofs, which carry it through.
#[verifier::external_type_specification]
#[verifier::external_body]
pub struct ExSystemTime(std::time::SystemTime);

/// Gives the whole seconds from a time to now (`SystemTime::now` and
/// `SystemTime::duration_since`), or `None` when the time lies in the future.
/// Nothing more is stated: the result depends on the clock.
#[verifier::external_body]
fn seconds_since(t: SystemTime) -> Option<u64> {
    SystemTime::now().duration_since(t).ok().map(|d| d.as_secs())
}

/// The text for a time some seconds ago: `just now` in the first minute, and
/// then the minutes, the hours, the days and the months of thirty days.
pub open spec fn ago_text(secs: Option<u64>) -> Seq<char> {
    match secs {
        None => Seq::empty(),
        Some(s) => if s < 60 {
            "just now"@
        } else if s < 3600 {
            decimal((s / 60) as nat) + "m ago"@
        } else if s < 86400 {
            decimal((s / 3600) as nat) + "h ago"@
        } else if s < 2592000 {
            decimal((s / 86400) as nat) + "d ago"@
        } else {
            decimal((s / 2592000) as nat) + "mo ago"@
        },
    }
}

/// Writes how long ago something happened, from the seconds since then, in a
/// few characters. A time in the future gives the empty text, and no fault.
pub fn ago_of_seconds(secs: Option<u64>) -> (r: String)
    ensures
        r@ == ago_text(secs),
{
    match secs {
        None => String::new(),
        Some(s) => {
            if s < 60 {
                String::from_str("just now")
            } else {
                let (n, unit) = if s < 3600 {
                    (s / 60, "m ago")
                } else if s < 86400 {
                    (s / 3600, "h ago")
                } else if s < 2592000 {
                    (s / 86400, "d ago")
                } else {
                    (s / 2592000, "mo ago")
                };
                let mut out = decimal_text(n);
                out.append(unit);
                out
            }
        },
    }
}

/// Writes how long ago a time was, in a few characters.
///
/// The text depends on the clock, so the contract speaks of its form: the
/// empty text for a time in the future, or one of the texts of
/// [`ago_text`].
pub fn ago(t: SystemTime) -> (r: String)
    ensures
        exists|secs: Option<u64>| r@ == ago_text(secs),
{
    let secs = seconds_since(t);
    ago_of_seconds(secs)
}

} // verus!

verus! {

/// A path of the file system, as `std::path::PathBuf`. A value of it is
/// opaque to the proofs, which carry it through.
#[verifier::external_type_specification]
#[verifier::external_body]
pub struct ExPathBuf(std::path::PathBuf);

/// Gives a copy of a path (`PathBuf::clone`), which is the same path.
#[verifier::external_body]
fn copy_path(p: &PathBuf) -> (r: PathBuf)
    ensures
        r == *p,
{
    p.clone()
}

/// The table of a database that a line of the list names.
#[derive(Debug)]
pub struct TableInfo {
    /// The schema that holds the table.
    pub schema: String,
    /// The name of the table in its schema.
    pub name: String,
    /// `true` for a view, which holds no data of its own.
    pub is_view: bool,
    /// The count of the rows that the catalog of the database gives, when it
    /// gives one.
    pub rows: Option<u64>,
}

/// The name that the list shows for a table: the schema, a full stop, and
/// the name.
pub open spec fn table_label(schema: Seq<char>, name: Seq<char>) -> Seq<char> {
    schema + "."@ + name
}

impl TableInfo {
    /// Gives the name that the list shows for the table.
    pub fn label(&self) -> (r: String)
        ensures
            r@ == table_label(self.schema@, self.name@),
    {
        let mut out = self.schema.clone();
        out.append(".");
        out.append(self.name.as_str());
        out
    }

    /// Gives a copy of the table.
    fn copy(&self) -> (r: TableInfo)
        ensures
            r.schema@ == self.schema@,
            r.name@ == self.name@,
            r.is_view == self.is_view,
            r.rows == self.rows,
    {
        TableInfo { schema: self.schema.clone(), name: self.name.clone(), is_view: self.is_view, rows: self.rows }
    }
}

/// One line of the list: a file, a directory, or a table of a database.
#[derive(Debug)]
pub struct Entry {
    /// The complete path. For a table, the path of the database file.
    pub path: PathBuf,
    /// The name that the list shows.
    pub name: String,
    /// `true` for a directory.
    pub is_dir: bool,
    /// The size of the file, in bytes.
    pub bytes: u64,
    /// The time of the last change.
    pub modified: Option<SystemTime>,
    /// The name of the format, when the extension gives one.
    pub format: Option<String>,
    /// `true` when the entry comes from the list of files that the user
    /// opened before, and not from the directory.
    pub is_recent: bool,
    /// The table of a database, when the list shows the tables of one.
    pub table: Option<TableInfo>,
}

/// An entry as values.
pub struct EntryView {
    pub path: PathBuf,
    pub name: Seq<char>,
    pub is_dir: bool,
    pub bytes: u64,
    pub modified: Option<SystemTime>,
    pub format: Option<Seq<char>>,
    pub is_recent: bool,
    pub table: Option<(Seq<char>, Seq<char>, bool, Option<u64>)>,
}

/// The value of an entry.
pub open spec fn entry_view(e: Entry) -> EntryView {
    EntryView {
        path: e.path,
        name: e.name@,
        is_dir: e.is_dir,
        bytes: e.bytes,
        modified: e.modified,
        format: match e.format {
            Some(f) => Some(f@),
            None => None,
        },
        is_recent: e.is_recent,
        table: match e.table {
            Some(t) => Some((t.schema@, t.name@, t.is_view, t.rows)),
            None => None,
        },
    }
}

/// The values of a list of entries.
pub open spec fn entries_view(es: Seq<Entry>) -> Seq<EntryView> {
    es.map_values(|e: Entry| entry_view(e))
}

impl Clone for Entry {
    fn clone(&self) -> (r: Entry)
        ensures
            entry_view(r) == entry_view(*self),
    {
        Entry {
            path: copy_path(&self.path),
            name: self.name.clone(),
            is_dir: self.is_dir,
            bytes: self.bytes,
            modified: self.modified,
            format: match &self.format {
                Some(f) => Some(f.clone()),
                None => None,
            },
            is_recent: self.is_recent,
            table: match &self.table {
                Some(t) => Some(t.copy()),
                None => None,
            },
        }
    }
}

/// Gives a copy of a list of entries.
fn copy_entries(es: &Vec<Entry>) -> (r: Vec<Entry>)
    ensures
        entries_view(r@) == entries_view(es@),
{
    let mut out: Vec<Entry> = Vec::new();
    let mut i: usize = 0;
    while i < es.len()
        invariant
            i <= es@.len(),
            entries_view(out@) == entries_view(es@.take(i as int)),
        decreases es@.len() - i,
    {
        let c = es[i].clone();
        let ghost before = out@;
        out.push(c);
        assert(out@ =~= before.push(c));
        assert(entries_view(out@) =~= entries_view(before).push(entry_view(c)));
        assert(es@.take(i + 1) =~= es@.take(i as int).push(es@[i as int]));
        assert(entries_view(es@.take(i + 1)) =~= entries_view(es@.take(i as int)).push(entry_view(es@[i as int])));
        i += 1;
    }
    assert(es@.take(i as int) =~= es@);
    out
}

} // verus!

verus! {

/// Gives `true` when the list of a directory keeps an entry: a directory
/// always, a file of a known format always, each other file when the list
/// shows each file; and only an entry whose name, in small letters, holds the
/// text of the find box.
pub open spec fn keeps(e: EntryView, all_files: bool, q: Seq<char>) -> bool {
    (e.is_dir || all_files || e.format is Some) && (q.len() == 0 || holds_text(lower_text(e.name), q))
}

/// Gives `true` when the list of a database keeps an entry among its tables
/// (`view` false) or among its views (`view` true).
pub open spec fn table_keeps(e: EntryView, view: bool, q: Seq<char>) -> bool {
    (e.table matches Some(t) && t.2 == view) && (q.len() == 0 || holds_text(lower_text(e.name), q))
}

/// Gives `true` when the small letters of a name hold a text.
fn name_holds(name: &String, q: &Vec<char>) -> (r: bool)
    ensures
        r == holds_text(lower_text(name@), q@),
{
    let low = chars_of(lowercase_text(name.as_str()).as_str());
    contains_chars(&low, q)
}

/// Gives the entries of a directory that the list keeps.
fn kept(es: &Vec<Entry>, all_files: bool, q: &Vec<char>) -> (r: Vec<Entry>)
    ensures
        entries_view(r@) == entries_view(es@).filter(|e: EntryView| keeps(e, all_files, q@)),
{
    let mut out: Vec<Entry> = Vec::new();
    let mut i: usize = 0;
    while i < es.len()
        invariant
            i <= es@.len(),
            entries_view(out@) == entries_view(es@.take(i as int)).filter(|e: EntryView| keeps(e, all_files, q@)),
        decreases es@.len() - i,
    {
        let e = &es[i];
        let ghost ev = entry_view(*e);
        proof {
            assert(entries_view(es@.take(i + 1)) =~= entries_view(es@.take(i as int)).push(ev));
            entries_view(es@.take(i as int)).lemma_filter_push(ev, |e: EntryView| keeps(e, all_files, q@));
        }
        let keep = (e.is_dir || all_files || e.format.is_some()) && (q.len() == 0 || name_holds(&e.name, q));
        if keep {
            let c = e.clone();
            let ghost before = out@;
            out.push(c);
            assert(entries_view(out@) =~= entries_view(before).push(entry_view(c)));
        }
        i += 1;
    }
    assert(es@.take(i as int) =~= es@);
    out
}

/// Gives the tables, or the views, of a database that the list keeps.
fn kept_tables(es: &Vec<Entry>, view: bool, q: &Vec<char>) -> (r: Vec<Entry>)
    ensures
        entries_view(r@) == entries_view(es@).filter(|e: EntryView| table_keeps(e, view, q@)),
{
    let mut out: Vec<Entry> = Vec::new();
    let mut i: usize = 0;
    while i < es.len()
        invariant
            i <= es@.len(),
            entries_view(out@) == entries_view(es@.take(i as int)).filter(|e: EntryView| table_keeps(e, view, q@)),
        decreases es@.len() - i,
    {
        let e = &es[i];
        let ghost ev = entry_view(*e);
        proof {
            assert(entries_view(es@.take(i + 1)) =~= entries_view(es@.take(i as int)).push(ev));
            entries_view(es@.take(i as int)).lemma_filter_push(ev, |e: EntryView| table_keeps(e, view, q@));
        }
        let of_kind = match &e.table {
            Some(t) => t.is_view == view,
            None => false,
        };
        let keep = of_kind && (q.len() == 0 || name_holds(&e.name, q));
        if keep {
            let c = e.clone();
            let ghost before = out@;
            out.push(c);
            assert(entries_view(out@) =~= entries_view(before).push(entry_view(c)));
        }
        i += 1;
    }
    assert(es@.take(i as int) =~= es@);
    out
}

} // verus!

verus! {

/// The lines that one turn of the wheel moves in the chooser: three, as a
/// terminal and a text editor do.
pub const WHEEL_LINES: usize = 3;

/// One line of the list as the screen draws it. A heading is a line that the
/// cursor goes past.
#[derive(Debug)]
pub enum Row {
    Heading(String),
    Item(Entry),
}

/// A line of the list as values.
pub enum RowView {
    Heading(Seq<char>),
    Item(EntryView),
}

/// The value of a line.
pub open spec fn row_view(r: Row) -> RowView {
    match r {
        Row::Heading(h) => RowView::Heading(h@),
        Row::Item(e) => RowView::Item(entry_view(e)),
    }
}

/// What the program must do for the chooser after a key or a click: read
/// another directory, read the home directory of the user, or nothing.
#[derive(Debug)]
pub enum Request {
    Stay,
    GoTo(PathBuf),
    GoHome,
}

/// The state of the chooser.
///
/// The chooser reads no directory itself. The program reads the directory
/// that a [`Request`] names and gives the entries to [`Browser::show_dir`].
#[derive(Debug)]
pub struct Browser {
    /// The directory that the list shows.
    pub dir: PathBuf,
    /// The directory that holds [`Browser::dir`], when it has one.
    parent: Option<PathBuf>,
    /// The short form of the directory, for the heading of the list.
    dir_text: String,
    /// The files that the user opened before.
    recent: Vec<Entry>,
    /// Each entry of the directory, before the find box removes any.
    entries: Vec<Entry>,
    /// The selected line.
    pub sel: usize,
    /// The text of the find box.
    pub find: LineInput,
    /// `true` while the user types in the find box.
    pub finding: bool,
    /// `true` while the list shows each file, and not the data files only.
    pub all_files: bool,
    /// The message about a directory that the program cannot read.
    pub error: Option<String>,
    /// The entry that the user chose.
    pub chosen: Option<Entry>,
    /// `true` after the user asks to leave.
    pub quit: bool,
    /// The name of the database whose tables the list shows.
    database: Option<String>,
    /// One pair for each entry on the screen: the row of the terminal, and the
    /// position of that entry in the list.
    lines: Vec<(u16, usize)>,
    /// The presses of the left button, for the double click.
    clicks: Clicks,
}

/// The chooser as values.
pub struct BrowserView {
    pub dir: PathBuf,
    pub parent: Option<PathBuf>,
    pub dir_text: Seq<char>,
    pub recent: Seq<EntryView>,
    pub entries: Seq<EntryView>,
    pub sel: nat,
    pub find: LineState,
    pub finding: bool,
    pub all_files: bool,
    pub error: Option<Seq<char>>,
    pub chosen: Option<EntryView>,
    pub quit: bool,
    pub database: Option<Seq<char>>,
    pub lines: Seq<(u16, usize)>,
}

impl View for Browser {
    type V = BrowserView;

    closed spec fn view(&self) -> BrowserView {
        BrowserView {
            dir: self.dir,
            parent: self.parent,
            dir_text: self.dir_text@,
            recent: entries_view(self.recent@),
            entries: entries_view(self.entries@),
            sel: self.sel as nat,
            find: self.find@,
            finding: self.finding,
            all_files: self.all_files,
            error: match self.error {
                Some(e) => Some(e@),
                None => None,
            },
            chosen: match self.chosen {
                Some(e) => Some(entry_view(e)),
                None => None,
            },
            quit: self.quit,
            database: match self.database {
                Some(d) => Some(d@),
                None => None,
            },
            lines: self.lines@,
        }
    }
}

/// The text of the find box that the list looks for: without the white space
/// at its ends, and in small letters.
pub open spec fn query_of(v: BrowserView) -> Seq<char> {
    lower_text(trimmed(v.find.chars))
}

/// The entry that names the directory above this one.
pub open spec fn up_entry(p: PathBuf) -> EntryView {
    EntryView {
        path: p,
        name: ".."@,
        is_dir: true,
        bytes: 0,
        modified: None,
        format: None,
        is_recent: false,
        table: None,
    }
}

/// Each entry as a line of the list.
pub open spec fn as_items(es: Seq<EntryView>) -> Seq<RowView> {
    es.map_values(|e: EntryView| RowView::Item(e))
}

/// A group of lines under a heading, or nothing when the group is empty.
pub open spec fn group(heading: Seq<char>, es: Seq<EntryView>) -> Seq<RowView> {
    if es.len() > 0 {
        seq![RowView::Heading(heading)] + as_items(es)
    } else {
        Seq::empty()
    }
}

/// The entries that the list shows, in their order.
///
/// For a database: its tables, and then its views. For a directory: the files
/// that the user opened before, when the find box is empty; the directory
/// above, when there is one and the find box is empty; and the entries of the
/// directory that the list keeps.
pub open spec fn list_items(v: BrowserView) -> Seq<EntryView> {
    let q = query_of(v);
    if v.database is Some {
        v.entries.filter(|e: EntryView| table_keeps(e, false, q)) + v.entries.filter(
            |e: EntryView| table_keeps(e, true, q),
        )
    } else {
        (if q.len() == 0 { v.recent } else { Seq::empty() }) + (if q.len() == 0 && v.parent is Some {
            seq![up_entry(v.parent.unwrap())]
        } else {
            Seq::empty()
        }) + v.entries.filter(|e: EntryView| keeps(e, v.all_files, q))
    }
}

/// The lines that the screen draws: [`list_items`] with a heading in front
/// of each group. The files that the user opened before come under the
/// heading `recent`, and the directory then gets its own heading.
pub open spec fn list_rows(v: BrowserView) -> Seq<RowView> {
    let q = query_of(v);
    if v.database is Some {
        group("tables"@, v.entries.filter(|e: EntryView| table_keeps(e, false, q))) + group(
            "views"@,
            v.entries.filter(|e: EntryView| table_keeps(e, true, q)),
        )
    } else {
        let recent = if q.len() == 0 { group("recent"@, v.recent) } else { Seq::empty() };
        let head = if recent.len() > 0 { seq![RowView::Heading(v.dir_text)] } else { Seq::empty() };
        let up = if q.len() == 0 && v.parent is Some {
            seq![RowView::Item(up_entry(v.parent.unwrap()))]
        } else {
            Seq::empty()
        };
        recent + head + up + as_items(v.entries.filter(|e: EntryView| keeps(e, v.all_files, q)))
    }
}

impl Browser {
    /// The rules that each state of the chooser keeps: the find box is a
    /// well-formed editor.
    pub closed spec fn wf(&self) -> bool {
        self.find.wf()
    }

    /// Gives the text of the find box that the list looks for.
    fn query(&self) -> (r: Vec<char>)
        ensures
            r@ == query_of(self@),
    {
        let t = trimmed_chars(self.find.text().as_str());
        let ts = crate::chars::text_of(t.as_slice());
        chars_of(lowercase_text(ts.as_str()).as_str())
    }

    /// Gives the entries that the screen draws, with no heading.
    pub fn items(&self) -> (r: Vec<Entry>)
        ensures
            entries_view(r@) == list_items(self@),
    {
        let q = self.query();
        if self.database.is_some() {
            let mut a = kept_tables(&self.entries, false, &q);
            let mut b = kept_tables(&self.entries, true, &q);
            let ghost av = entries_view(a@);
            let ghost bv = entries_view(b@);
            a.append(&mut b);
            assert(entries_view(a@) =~= av + bv);
            return a;
        }
        let mut out: Vec<Entry> = Vec::new();
        if q.len() == 0 {
            out = copy_entries(&self.recent);
            if let Some(p) = &self.parent {
                let up = Entry {
                    path: copy_path(p),
                    name: String::from_str(".."),
                    is_dir: true,
                    bytes: 0,
                    modified: None,
                    format: None,
                    is_recent: false,
                    table: None,
                };
                let ghost before = entries_view(out@);
                out.push(up);
                assert(entries_view(out@) =~= before.push(up_entry(*p)));
            }
        }
        let ghost head = entries_view(out@);
        let mut rest = kept(&self.entries, self.all_files, &q);
        let ghost rv = entries_view(rest@);
        out.append(&mut rest);
        assert(entries_view(out@) =~= head + rv);
        proof {
            let v = self@;
            if q@.len() == 0 {
                if v.parent is Some {
                    assert(head =~= v.recent + seq![up_entry(v.parent.unwrap())]);
                } else {
                    assert(head =~= v.recent + Seq::<EntryView>::empty());
                }
            } else {
                assert(head =~= Seq::<EntryView>::empty() + Seq::<EntryView>::empty());
            }
        }
        out
    }
}

} // verus!

verus! {

/// Gives the lines of a group: a heading and the entries, or nothing.
fn group_rows(heading: &str, es: Vec<Entry>) -> (r: Vec<Row>)
    ensures
        r@.map_values(|x: Row| row_view(x)) == group(heading@, entries_view(es@)),
{
    let mut out: Vec<Row> = Vec::new();
    if es.len() == 0 {
        assert(out@.map_values(|x: Row| row_view(x)) =~= Seq::<RowView>::empty());
        return out;
    }
    out.push(Row::Heading(String::from_str(heading)));
    let mut rest = items_rows(es);
    out.append(&mut rest);
    assert(out@.map_values(|x: Row| row_view(x)) =~= seq![RowView::Heading(heading@)] + as_items(
        entries_view(es@),
    ));
    out
}

/// Gives each entry as a line.
fn items_rows(es: Vec<Entry>) -> (r: Vec<Row>)
    ensures
        r@.map_values(|x: Row| row_view(x)) == as_items(entries_view(es@)),
{
    let mut out: Vec<Row> = Vec::new();
    let mut i: usize = 0;
    while i < es.len()
        invariant
            i <= es@.len(),
            out@.map_values(|x: Row| row_view(x)) == as_items(entries_view(es@.take(i as int))),
        decreases es@.len() - i,
    {
        let c = es[i].clone();
        let ghost before = out@.map_values(|x: Row| row_view(x));
        out.push(Row::Item(c));
        assert(out@.map_values(|x: Row| row_view(x)) =~= before.push(RowView::Item(entry_view(c))));
        assert(as_items(entries_view(es@.take(i + 1))) =~= as_items(entries_view(es@.take(i as int))).push(
            RowView::Item(entry_view(es@[i as int])),
        ));
        i += 1;
    }
    assert(es@.take(i as int) =~= es@);
    out
}

impl Browser {
    /// Gives the lines that the screen draws.
    ///
    /// The files that the user opened before come first, and only when the
    /// find box is empty: a user who types a name looks in this directory.
    pub fn rows(&self) -> (r: Vec<Row>)
        ensures
            r@.map_values(|x: Row| row_view(x)) == list_rows(self@),
    {
        let q = self.query();
        if self.database.is_some() {
            let a = kept_tables(&self.entries, false, &q);
            let b = kept_tables(&self.entries, true, &q);
            let mut out = group_rows("tables", a);
            let ghost av = out@.map_values(|x: Row| row_view(x));
            let mut rest = group_rows("views", b);
            let ghost bv = rest@.map_values(|x: Row| row_view(x));
            out.append(&mut rest);
            assert(out@.map_values(|x: Row| row_view(x)) =~= av + bv);
            return out;
        }
        let mut out: Vec<Row> = Vec::new();
        if q.len() == 0 {
            out = group_rows("recent", copy_entries(&self.recent));
        }
        let ghost recent = out@.map_values(|x: Row| row_view(x));
        if out.len() > 0 {
            out.push(Row::Heading(self.dir_text.clone()));
        }
        let ghost head = out@.map_values(|x: Row| row_view(x));
        if q.len() == 0 {
            if let Some(p) = &self.parent {
                let up = Entry {
                    path: copy_path(p),
                    name: String::from_str(".."),
                    is_dir: true,
                    bytes: 0,
                    modified: None,
                    format: None,
                    is_recent: false,
                    table: None,
                };
                out.push(Row::Item(up));
            }
        }
        let ghost upper = out@.map_values(|x: Row| row_view(x));
        let mut rest = items_rows(kept(&self.entries, self.all_files, &q));
        let ghost rv = rest@.map_values(|x: Row| row_view(x));
        out.append(&mut rest);
        proof {
            let v = self@;
            let rec = if q@.len() == 0 { group("recent"@, v.recent) } else { Seq::<RowView>::empty() };
            assert(recent =~= rec);
            let hd = if rec.len() > 0 { seq![RowView::Heading(v.dir_text)] } else { Seq::<RowView>::empty() };
            assert(head =~= rec + hd);
            let up = if q@.len() == 0 && v.parent is Some {
                seq![RowView::Item(up_entry(v.parent.unwrap()))]
            } else {
                Seq::<RowView>::empty()
            };
            assert(upper =~= rec + hd + up);
            assert(out@.map_values(|x: Row| row_view(x)) =~= rec + hd + up + rv);
        }
        out
    }

    /// Gives the entry under the cursor.
    pub fn selected(&self) -> (r: Option<Entry>)
        ensures
            match r {
                Some(e) => self@.sel < list_items(self@).len() && entry_view(e) == list_items(self@)[self@.sel as int],
                None => self@.sel >= list_items(self@).len(),
            },
    {
        let mut items = self.items();
        if self.sel < items.len() {
            let ghost iv = entries_view(items@);
            let e = items.swap_remove(self.sel);
            assert(entry_view(e) == iv[self.sel as int]);
            Some(e)
        } else {
            None
        }
    }

    /// Gives the names in the list of the directory, for the ghost completion.
    fn names(&self) -> (r: Vec<String>)
        ensures
            r@.len() == self.entries@.len(),
            forall|i: int| 0 <= i < r@.len() ==> #[trigger] r@[i]@ == self@.entries[i].name,
    {
        let mut out: Vec<String> = Vec::new();
        let mut i: usize = 0;
        while i < self.entries.len()
            invariant
                i <= self.entries@.len(),
                out@.len() == i,
                forall|k: int| 0 <= k < i ==> #[trigger] out@[k]@ == self@.entries[k].name,
            decreases self.entries@.len() - i,
        {
            out.push(self.entries[i].name.clone());
            i += 1;
        }
        out
    }

    /// Gives the part of a name that the user did not type yet, while the
    /// user types in the find box with the cursor at the end of the text.
    pub fn ghost(&self) -> (r: Option<String>)
        ensures
            crate::app::text_view(r) == ghost_of(self@),
    {
        if !self.finding || !self.find.cursor_at_end() {
            return None;
        }
        let names = self.names();
        let text = self.find.text();
        let r = crate::app::offer(text.as_str(), &names);
        assert(names@.map_values(|n: String| n@) =~= self@.entries.map_values(|e: EntryView| e.name));
        r
    }

    /// Moves the cursor by `delta` lines, inside the list.
    fn move_sel(&mut self, delta: i64)
        ensures
            final(self)@ == (BrowserView { sel: moved(old(self)@.sel as int, delta as int, list_items(old(self)@).len() as int), ..old(self)@ }),
            final(self).clicks == old(self).clicks,
    {
        let n = self.items().len();
        if n == 0 {
            return;
        }
        let target: i128 = self.sel as i128 + delta as i128;
        let top: i128 = n as i128 - 1;
        self.sel = if target < 0 { 0 } else if target > top { n - 1 } else { target as usize };
    }

    /// Gives the text that the title bar shows at the right of the name of the
    /// program: the question of the list of a database, or the directory.
    pub fn where_text(&self) -> (r: String)
        ensures
            r@ == match self@.database {
                Some(name) => name + " · which table?"@,
                None => self@.dir_text,
            },
    {
        match &self.database {
            Some(name) => {
                let mut t = name.clone();
                t.append(" · which table?");
                t
            },
            None => self.dir_text.clone(),
        }
    }

    /// Writes where each entry of the list is on the screen: the row of the
    /// terminal and the position of the entry in the list. Only the code that
    /// draws the list knows this, and the mouse needs it.
    pub fn set_lines(&mut self, lines: Vec<(u16, usize)>)
        ensures
            final(self)@ == (BrowserView { lines: lines@, ..old(self)@ }),
    {
        self.lines = lines;
    }

    /// Gives the position in the list of the entry at a row of the terminal.
    pub fn line_at(&self, y: u16) -> (r: Option<usize>)
        ensures
            r == crate::app::first_line(self@.lines, y),
    {
        let mut i: usize = 0;
        assert(self.lines@.subrange(0, self.lines@.len() as int) =~= self.lines@);
        while i < self.lines.len()
            invariant
                i <= self.lines@.len(),
                crate::app::first_line(self.lines@.subrange(i as int, self.lines@.len() as int), y)
                    == crate::app::first_line(self.lines@, y),
            decreases self.lines@.len() - i,
        {
            let (ly, at) = self.lines[i];
            let ghost rest = self.lines@.subrange(i as int, self.lines@.len() as int);
            assert(rest.drop_first() =~= self.lines@.subrange(i + 1, self.lines@.len() as int));
            if ly == y {
                return Some(at);
            }
            i += 1;
        }
        None
    }
}

/// The cursor after a move of `delta` lines in a list of `n` lines: inside
/// the list, and where it was for an empty list.
pub open spec fn moved(sel: int, delta: int, n: int) -> nat {
    if n == 0 {
        sel as nat
    } else if sel + delta < 0 {
        0
    } else if sel + delta > n - 1 {
        (n - 1) as nat
    } else {
        (sel + delta) as nat
    }
}

} // verus!

verus! {

/// The part of a name that the find box offers: nothing unless the user
/// types in the box with the cursor at the end; then the rest of the
/// shortest name, first in the order of `str`, whose small letters start with
/// the small letters of the text.
pub open spec fn ghost_of(v: BrowserView) -> Option<Seq<char>> {
    if !v.finding || v.find.cursor < v.find.chars.len() {
        None
    } else {
        offered(v.find.chars, v.entries.map_values(|e: EntryView| e.name))
    }
}

/// What the program must do, as a value.
pub enum RequestView {
    Stay,
    GoTo(PathBuf),
    GoHome,
}

/// The value of a request.
pub open spec fn request_view(r: Request) -> RequestView {
    match r {
        Request::Stay => RequestView::Stay,
        Request::GoTo(p) => RequestView::GoTo(p),
        Request::GoHome => RequestView::GoHome,
    }
}

/// The chooser after Enter on the selected line: a directory asks to go into
/// it, and a file or a table becomes the choice.
pub open spec fn opened(v: BrowserView) -> (BrowserView, RequestView) {
    let items = list_items(v);
    if v.sel < items.len() {
        let e = items[v.sel as int];
        if e.is_dir {
            (v, RequestView::GoTo(e.path))
        } else {
            (BrowserView { chosen: Some(e), ..v }, RequestView::Stay)
        }
    } else {
        (v, RequestView::Stay)
    }
}

/// The chooser after one key, and what the program must do.
///
/// While the user types in the find box, Tab takes the name that the ghost
/// shows, and so does the plain right arrow when a ghost shows; each other key
/// goes to the editor of the box: Esc leaves the box and empties it, Enter
/// leaves the box and keeps the text, and a change of the text moves the
/// cursor to the first line.
///
/// Otherwise: `q` and Esc empty the find box, or leave when it is empty; `j`,
/// `k`, the arrows and the page keys move the cursor; `g` and Home go to the
/// first line, `G` and End to the last one; Enter, `l` and the right arrow
/// open the line; `h`, the left arrow and Backspace go to the directory above;
/// `~` goes home; `/` opens the find box; and `a` shows each file or the data
/// files only. The list of a database has nowhere to walk to, so `h`, `~` and
/// `a` do nothing there.
pub open spec fn browse_key(v: BrowserView, key: KeyEvent) -> (BrowserView, RequestView) {
    let items = list_items(v);
    let n = items.len() as int;
    let db = v.database is Some;
    if v.finding {
        if key.code == KeyCode::Tab || (key.code == KeyCode::Right && plain(key) && ghost_of(v) is Some) {
            match ghost_of(v) {
                Some(rest) => (BrowserView { find: reset_to(v.find, v.find.chars + rest), ..v }, RequestView::Stay),
                None => (v, RequestView::Stay),
            }
        } else {
            let (f, act) = handled(v.find, key);
            match act {
                Action::Cancel => (BrowserView { finding: false, find: reset_to(f, Seq::empty()), sel: 0, ..v }, RequestView::Stay),
                Action::Submit => (BrowserView { finding: false, find: f, ..v }, RequestView::Stay),
                Action::Changed => (BrowserView { find: f, sel: 0, ..v }, RequestView::Stay),
                Action::Ignored => (BrowserView { find: f, ..v }, RequestView::Stay),
            }
        }
    } else {
        match key.code {
            KeyCode::Char(c) if c == 'q' => if v.find.chars.len() == 0 {
                (BrowserView { quit: true, ..v }, RequestView::Stay)
            } else {
                (BrowserView { find: reset_to(v.find, Seq::empty()), sel: 0, ..v }, RequestView::Stay)
            },
            KeyCode::Esc => if v.find.chars.len() == 0 {
                (BrowserView { quit: true, ..v }, RequestView::Stay)
            } else {
                (BrowserView { find: reset_to(v.find, Seq::empty()), sel: 0, ..v }, RequestView::Stay)
            },
            KeyCode::Char(c) if c == 'j' => (BrowserView { sel: moved(v.sel as int, 1, n), ..v }, RequestView::Stay),
            KeyCode::Down => (BrowserView { sel: moved(v.sel as int, 1, n), ..v }, RequestView::Stay),
            KeyCode::Char(c) if c == 'k' => (BrowserView { sel: moved(v.sel as int, -1, n), ..v }, RequestView::Stay),
            KeyCode::Up => (BrowserView { sel: moved(v.sel as int, -1, n), ..v }, RequestView::Stay),
            KeyCode::PageDown => (BrowserView { sel: moved(v.sel as int, 10, n), ..v }, RequestView::Stay),
            KeyCode::PageUp => (BrowserView { sel: moved(v.sel as int, -10, n), ..v }, RequestView::Stay),
            KeyCode::Char(c) if c == 'g' => (BrowserView { sel: 0, ..v }, RequestView::Stay),
            KeyCode::Home => (BrowserView { sel: 0, ..v }, RequestView::Stay),
            KeyCode::Char(c) if c == 'G' => (BrowserView { sel: if n > 0 { (n - 1) as nat } else { 0 }, ..v }, RequestView::Stay),
            KeyCode::End => (BrowserView { sel: if n > 0 { (n - 1) as nat } else { 0 }, ..v }, RequestView::Stay),
            KeyCode::Enter => opened(v),
            KeyCode::Char(c) if c == 'l' => opened(v),
            KeyCode::Right => opened(v),
            KeyCode::Char(c) if c == 'h' && !db => (v, match v.parent { Some(p) => RequestView::GoTo(p), None => RequestView::Stay }),
            KeyCode::Left if !db => (v, match v.parent { Some(p) => RequestView::GoTo(p), None => RequestView::Stay }),
            KeyCode::Backspace if !db => (v, match v.parent { Some(p) => RequestView::GoTo(p), None => RequestView::Stay }),
            KeyCode::Char(c) if c == '~' && !db => (v, RequestView::GoHome),
            KeyCode::Char(c) if c == '/' => (BrowserView { finding: true, find: reset_to(v.find, Seq::empty()), ..v }, RequestView::Stay),
            KeyCode::Char(c) if c == 'a' && !db => (BrowserView { all_files: !v.all_files, sel: 0, ..v }, RequestView::Stay),
            _ => (v, RequestView::Stay),
        }
    }
}

/// Gives `true` for a press of the left button.
pub open spec fn left_press(ev: MouseEvent) -> bool {
    ev.kind == MouseEventKind::Down(MouseButton::Left)
}

/// The chooser after one mouse event, whether the screen changed, and what
/// the program must do; `double` says whether the press closed a double
/// click.
///
/// A turn of the wheel moves the cursor by [`WHEEL_LINES`] and never goes
/// through the keys, so it writes nothing in the find box. A press of the left
/// button on a row of the screen that holds no entry does nothing. A double
/// click opens the entry that the first press selected, as Enter does. One
/// press on an entry selects it and takes the focus from the find box. Each
/// other event changes nothing.
pub open spec fn moused(v: BrowserView, ev: MouseEvent, double: bool) -> (BrowserView, bool, RequestView) {
    let n = list_items(v).len() as int;
    match ev.kind {
        MouseEventKind::ScrollDown => {
            let s = moved(v.sel as int, WHEEL_LINES as int, n);
            (BrowserView { sel: s, ..v }, s != v.sel, RequestView::Stay)
        },
        MouseEventKind::ScrollUp => {
            let s = moved(v.sel as int, -(WHEEL_LINES as int), n);
            (BrowserView { sel: s, ..v }, s != v.sel, RequestView::Stay)
        },
        _ => if !left_press(ev) {
            (v, false, RequestView::Stay)
        } else {
            match crate::app::first_line(v.lines, ev.row) {
                None => (v, false, RequestView::Stay),
                Some(at) => if double {
                    (opened(v).0, true, opened(v).1)
                } else if at >= n {
                    (v, false, RequestView::Stay)
                } else {
                    (BrowserView { finding: false, sel: at as nat, ..v }, v.sel != at || v.finding, RequestView::Stay)
                },
            }
        },
    }
}

impl Browser {
    /// Goes into the selected directory, or chooses the selected file or
    /// table.
    fn open(&mut self) -> (r: Request)
        ensures
            (final(self)@, request_view(r)) == opened(old(self)@),
            final(self).find == old(self).find,
            final(self).clicks == old(self).clicks,
    {
        match self.selected() {
            None => Request::Stay,
            Some(e) => {
                if e.is_dir {
                    Request::GoTo(e.path)
                } else {
                    self.chosen = Some(e);
                    Request::Stay
                }
            },
        }
    }

    /// Empties the find box, or leaves the chooser when the box is empty.
    fn clear_or_quit(&mut self)
        requires
            old(self).wf(),
        ensures
            final(self).wf(),
            final(self)@ == (if old(self)@.find.chars.len() == 0 {
                BrowserView { quit: true, ..old(self)@ }
            } else {
                BrowserView { find: reset_to(old(self)@.find, Seq::empty()), sel: 0, ..old(self)@ }
            }),
    {
        if self.find.is_empty() {
            self.quit = true;
        } else {
            self.find.clear();
            self.sel = 0;
        }
    }

    /// Asks for the directory above this one, when there is one.
    fn up(&self) -> (r: Request)
        ensures
            request_view(r) == match self@.parent {
                Some(p) => RequestView::GoTo(p),
                None => RequestView::Stay,
            },
    {
        match &self.parent {
            Some(p) => Request::GoTo(copy_path(p)),
            None => Request::Stay,
        }
    }

    /// Applies one key while the user types in the find box.
    fn on_find_key(&mut self, key: &KeyEvent) -> (r: Request)
        requires
            old(self).wf(),
            old(self)@.finding,
        ensures
            final(self).wf(),
            (final(self)@, request_view(r)) == browse_key(old(self)@, *key),
    {
        let plain_key = !key.modifiers.control && !key.modifiers.alt;
        if key.code == KeyCode::Tab || (key.code == KeyCode::Right && plain_key && self.ghost().is_some()) {
            if let Some(rest) = self.ghost() {
                let mut full = self.find.text();
                full.append(rest.as_str());
                self.find.set(full.as_str());
            }
            return Request::Stay;
        }
        let act = self.find.handle(key);
        match act {
            Action::Cancel => {
                self.finding = false;
                self.find.clear();
                self.sel = 0;
            },
            Action::Submit => {
                self.finding = false;
            },
            Action::Changed => {
                self.sel = 0;
            },
            Action::Ignored => {},
        }
        Request::Stay
    }

    /// The press of the left button that came last.
    pub closed spec fn last_press(&self) -> Option<Press> {
        self.clicks.last_press()
    }

    /// Gives `true` when a press at this place can close a double click: the
    /// press before it was at the same place and closed no pair.
    pub open spec fn pairs_with(&self, column: u16, row: u16) -> bool {
        self.last_press() matches Some(l) && !l.paired && l.column == column && l.row == row
    }

    /// Applies one mouse event, and gives whether the screen changed and what
    /// the program must do: refer to [`moused`].
    ///
    /// Whether a press closes a double click depends on the clock too: a
    /// press that does not pair with the one before it is never one.
    pub fn on_mouse(&mut self, ev: &MouseEvent) -> (r: (bool, Request))
        requires
            old(self).wf(),
        ensures
            final(self).wf(),
            !left_press(*ev) ==> final(self).last_press() == old(self).last_press()
                && (final(self)@, r.0, request_view(r.1)) == moused(old(self)@, *ev, false),
            left_press(*ev) ==> (final(self).last_press() matches Some(p)
                && p.column == ev.column && p.row == ev.row
                && (p.paired ==> old(self).pairs_with(ev.column, ev.row))
                && (final(self)@, r.0, request_view(r.1)) == moused(old(self)@, *ev, p.paired)),
    {
        match ev.kind {
            MouseEventKind::ScrollDown => {
                let before = self.sel;
                self.move_sel(WHEEL_LINES as i64);
                return (self.sel != before, Request::Stay);
            },
            MouseEventKind::ScrollUp => {
                let before = self.sel;
                self.move_sel(-(WHEEL_LINES as i64));
                return (self.sel != before, Request::Stay);
            },
            _ => {},
        }
        if ev.kind != MouseEventKind::Down(MouseButton::Left) {
            return (false, Request::Stay);
        }
        let double = self.clicks.press_now(ev.column, ev.row);
        let at = match self.line_at(ev.row) {
            Some(at) => at,
            None => {
                return (false, Request::Stay);
            },
        };
        if double {
            let req = self.open();
            return (true, req);
        }
        if at >= self.items().len() {
            return (false, Request::Stay);
        }
        let changed = self.sel != at || self.finding;
        self.finding = false;
        self.sel = at;
        (changed, Request::Stay)
    }

    /// Applies one key, and gives what the program must do: refer to
    /// [`browse_key`].
    pub fn on_key(&mut self, key: &KeyEvent) -> (r: Request)
        requires
            old(self).wf(),
        ensures
            final(self).wf(),
            (final(self)@, request_view(r)) == browse_key(old(self)@, *key),
    {
        if self.finding {
            return self.on_find_key(key);
        }
        let db = self.database.is_some();
        match key.code {
            KeyCode::Char(c) => {
                if c == 'q' {
                    self.clear_or_quit();
                } else if c == 'j' {
                    self.move_sel(1);
                } else if c == 'k' {
                    self.move_sel(-1);
                } else if c == 'g' {
                    self.sel = 0;
                } else if c == 'G' {
                    self.sel = self.items().len().saturating_sub(1);
                } else if c == 'l' {
                    return self.open();
                } else if c == 'h' && !db {
                    return self.up();
                } else if c == '~' && !db {
                    return Request::GoHome;
                } else if c == '/' {
                    self.finding = true;
                    self.find.clear();
                } else if c == 'a' && !db {
                    self.all_files = !self.all_files;
                    self.sel = 0;
                }
                Request::Stay
            },
            KeyCode::Esc => {
                self.clear_or_quit();
                Request::Stay
            },
            KeyCode::Down => {
                self.move_sel(1);
                Request::Stay
            },
            KeyCode::Up => {
                self.move_sel(-1);
                Request::Stay
            },
            KeyCode::PageDown => {
                self.move_sel(10);
                Request::Stay
            },
            KeyCode::PageUp => {
                self.move_sel(-10);
                Request::Stay
            },
            KeyCode::Home => {
                self.sel = 0;
                Request::Stay
            },
            KeyCode::End => {
                self.sel = self.items().len().saturating_sub(1);
                Request::Stay
            },
            KeyCode::Enter => self.open(),
            KeyCode::Right => self.open(),
            KeyCode::Left => if db { Request::Stay } else { self.up() },
            KeyCode::Backspace => if db { Request::Stay } else { self.up() },
            _ => Request::Stay,
        }
    }
}

} // verus!

verus! {

/// Gives `true` when an entry of a directory comes before another in the
/// list: a directory before a file, and then the order of `str` on the names
/// in small letters.
pub open spec fn listed_before(a: EntryView, b: EntryView) -> bool {
    (a.is_dir && !b.is_dir) || (a.is_dir == b.is_dir && lex_lt(lower_text(a.name), lower_text(b.name)))
}

/// Where an entry goes in a list that is already in order: after each entry
/// that it does not come before, so that equal entries keep the order in
/// which they came.
pub open spec fn place(s: Seq<EntryView>, e: EntryView) -> nat
    decreases s.len(),
{
    if s.len() == 0 {
        0
    } else if listed_before(e, s.last()) {
        place(s.drop_last(), e)
    } else {
        s.len()
    }
}

/// The entries of a directory in the order of the list, with each entry put
/// at its [`place`] in turn: a stable sort by [`listed_before`].
pub open spec fn listed(s: Seq<EntryView>) -> Seq<EntryView>
    decreases s.len(),
{
    if s.len() == 0 {
        Seq::empty()
    } else {
        let t = listed(s.drop_last());
        t.insert(place(t, s.last()) as int, s.last())
    }
}

/// Gives `true` when no entry of a list comes before an entry in front of
/// it.
pub open spec fn in_listing_order(s: Seq<EntryView>) -> bool {
    forall|i: int, j: int| 0 <= i < j < s.len() ==> !listed_before(#[trigger] s[j], #[trigger] s[i])
}

/// Gives `true` for a name that starts with a full stop: a file that the
/// system holds for itself.
pub open spec fn hidden(e: EntryView) -> bool {
    e.name.len() > 0 && e.name[0] == '.'
}

/// The entries that the list of a directory holds, from what the directory
/// gave: without the hidden ones, in the order of the list.
pub open spec fn listing(es: Seq<EntryView>) -> Seq<EntryView> {
    listed(es.filter(|e: EntryView| !hidden(e)))
}

/// The place of an entry lies inside the list.
proof fn lemma_place_bound(s: Seq<EntryView>, e: EntryView)
    ensures
        place(s, e) <= s.len(),
        forall|k: int| place(s, e) <= k < s.len() ==> listed_before(e, #[trigger] s[k]),
        place(s, e) > 0 ==> !listed_before(e, s[place(s, e) - 1]),
    decreases s.len(),
{
    if s.len() > 0 && listed_before(e, s.last()) {
        lemma_place_bound(s.drop_last(), e);
        assert forall|k: int| place(s, e) <= k < s.len() implies listed_before(e, #[trigger] s[k]) by {
            if k < s.len() - 1 {
                assert(s[k] == s.drop_last()[k]);
            }
        }
        if place(s, e) > 0 {
            assert(s[place(s, e) - 1] == s.drop_last()[place(s, e) - 1]);
        }
    }
}

/// An order of `str` that holds between two texts holds between one of them
/// and any third text.
proof fn lemma_lex_lt_split(a: Seq<char>, b: Seq<char>, c: Seq<char>)
    requires
        lex_lt(a, c),
    ensures
        lex_lt(a, b) || lex_lt(b, c),
    decreases a.len(),
{
    if a.len() > 0 && b.len() > 0 && a[0] == b[0] && b[0] == c[0] {
        lemma_lex_lt_split(a.drop_first(), b.drop_first(), c.drop_first());
    }
}

/// The order of the list never holds both ways, and an entry that comes
/// before another comes before or after any third one.
proof fn lemma_listed_before(a: EntryView, b: EntryView, c: EntryView)
    ensures
        !(listed_before(a, b) && listed_before(b, a)),
        listed_before(a, c) ==> listed_before(a, b) || listed_before(b, c),
{
    crate::app::lemma_lex_lt_asymmetric(lower_text(a.name), lower_text(b.name));
    if listed_before(a, c) && a.is_dir == c.is_dir && b.is_dir == a.is_dir {
        lemma_lex_lt_split(lower_text(a.name), lower_text(b.name), lower_text(c.name));
    }
}

/// A list in order stays in order with an entry put at its place.
proof fn lemma_insert_keeps_order(t: Seq<EntryView>, e: EntryView)
    requires
        in_listing_order(t),
    ensures
        in_listing_order(t.insert(place(t, e) as int, e)),
{
    let p = place(t, e) as int;
    lemma_place_bound(t, e);
    let u = t.insert(p, e);
    assert forall|i: int, j: int| 0 <= i < j < u.len() implies !listed_before(#[trigger] u[j], #[trigger] u[i]) by {
        if i < p && j == p {
            lemma_listed_before(e, t[p - 1], t[i]);
            if i < p - 1 {
                assert(!listed_before(t[p - 1], t[i]));
            }
        } else if i == p {
            lemma_listed_before(e, t[j - 1], e);
        } else if j < p {
            assert(u[i] == t[i] && u[j] == t[j]);
        } else if i < p {
            assert(u[i] == t[i] && u[j] == t[j - 1]);
        } else {
            assert(u[i] == t[i - 1] && u[j] == t[j - 1]);
        }
    }
}

/// The list of a directory is in the order of the list, and it holds each
/// entry that it sorts, as many times as it came.
pub proof fn the_listing_is_in_order(s: Seq<EntryView>)
    ensures
        in_listing_order(listed(s)),
        listed(s).to_multiset() == s.to_multiset(),
        listed(s).len() == s.len(),
    decreases s.len(),
{
    broadcast use vstd::seq_lib::group_to_multiset_ensures;

    if s.len() > 0 {
        let t = listed(s.drop_last());
        the_listing_is_in_order(s.drop_last());
        lemma_place_bound(t, s.last());
        lemma_insert_keeps_order(t, s.last());
        assert(s =~= s.drop_last().push(s.last()));
    }
}

/// Gives `true` when an entry comes before another in the list; `keys` are
/// the names in small letters.
fn before_in_list(a: &Entry, ka: &Vec<char>, b: &Entry, kb: &Vec<char>) -> (r: bool)
    requires
        ka@ == lower_text(a.name@),
        kb@ == lower_text(b.name@),
    ensures
        r == listed_before(entry_view(*a), entry_view(*b)),
{
    (a.is_dir && !b.is_dir) || (a.is_dir == b.is_dir && crate::app::lex_less(ka, kb))
}

/// Gives the entries of a directory in the order of the list: refer to
/// [`listing`].
fn sort_listing(es: Vec<Entry>) -> (r: Vec<Entry>)
    ensures
        entries_view(r@) == listing(entries_view(es@)),
{
    let ghost kept = entries_view(es@).filter(|e: EntryView| !hidden(e));
    let mut out: Vec<Entry> = Vec::new();
    let mut keys: Vec<Vec<char>> = Vec::new();
    let ghost mut seen: Seq<EntryView> = Seq::empty();
    let mut i: usize = 0;
    while i < es.len()
        invariant
            i <= es@.len(),
            seen == entries_view(es@.take(i as int)).filter(|e: EntryView| !hidden(e)),
            entries_view(out@) == listed(seen),
            keys@.len() == out@.len(),
            forall|k: int| 0 <= k < keys@.len() ==> (#[trigger] keys@[k])@ == lower_text(out@[k].name@),
        decreases es@.len() - i,
    {
        let e = es[i].clone();
        let ghost ev = entry_view(e);
        proof {
            assert(entries_view(es@.take(i + 1)) =~= entries_view(es@.take(i as int)).push(entry_view(es@[i as int])));
            entries_view(es@.take(i as int)).lemma_filter_push(entry_view(es@[i as int]), |e: EntryView| !hidden(e));
        }
        let nc = chars_of(e.name.as_str());
        let is_hidden = nc.len() > 0 && nc[0] == '.';
        if !is_hidden {
            let ke = chars_of(lowercase_text(e.name.as_str()).as_str());
            let mut j: usize = out.len();
            let ghost cur = entries_view(out@);
            assert(cur.take(j as int) =~= cur);
            while j > 0 && before_in_list(&e, &ke, &out[j - 1], &keys[j - 1])
                invariant
                    j <= out@.len(),
                    cur == entries_view(out@),
                    keys@.len() == out@.len(),
                    forall|k: int| 0 <= k < keys@.len() ==> (#[trigger] keys@[k])@ == lower_text(out@[k].name@),
                    ke@ == lower_text(e.name@),
                    ev == entry_view(e),
                    place(cur, ev) == place(cur.take(j as int), ev),
                decreases j,
            {
                assert(cur.take(j as int).drop_last() =~= cur.take(j - 1));
                j -= 1;
            }
            proof {
                if j > 0 {
                    assert(cur.take(j as int).last() == cur[j - 1]);
                }
            }
            let ghost old_keys = keys@;
            let ghost old_out = out@;
            out.insert(j, e);
            keys.insert(j, ke);
            proof {
                seen = seen.push(ev);
                assert(seen.drop_last() =~= entries_view(es@.take(i as int)).filter(|e: EntryView| !hidden(e)));
                assert(entries_view(out@) =~= cur.insert(j as int, ev));
                assert forall|k: int| 0 <= k < keys@.len() implies (#[trigger] keys@[k])@ == lower_text(out@[k].name@) by {
                    if k > j {
                        assert(keys@[k] == old_keys[k - 1] && out@[k] == old_out[k - 1]);
                    } else if k < j {
                        assert(keys@[k] == old_keys[k] && out@[k] == old_out[k]);
                    }
                }
            }
        }
        i += 1;
    }
    assert(es@.take(i as int) =~= es@);
    out
}

} // verus!

verus! {

/// The entries that the list holds after a read of a directory: the
/// [`listing`] of what the directory gave, or nothing when the read failed.
pub open spec fn read_entries(read: Result<Vec<Entry>, String>) -> Seq<EntryView> {
    match read {
        Ok(es) => listing(entries_view(es@)),
        Err(_) => Seq::empty(),
    }
}

/// The message that the screen shows after a read of a directory.
pub open spec fn read_error(read: Result<Vec<Entry>, String>) -> Option<Seq<char>> {
    match read {
        Ok(_) => None,
        Err(m) => Some(m@),
    }
}

/// An empty find box with an empty history.
pub open spec fn empty_find() -> LineState {
    LineState { chars: Seq::empty(), cursor: 0, history: Seq::empty(), hist_pos: None, stash: None }
}

/// The line of the list for one table of a database.
pub open spec fn table_entry(path: PathBuf, format: Seq<char>, t: TableInfo) -> EntryView {
    EntryView {
        path: path,
        name: table_label(t.schema@, t.name@),
        is_dir: false,
        bytes: 0,
        modified: None,
        format: Some(format),
        is_recent: false,
        table: Some((t.schema@, t.name@, t.is_view, t.rows)),
    }
}

/// Gives the entries of a list from a read of a directory.
fn entries_of_read(read: Result<Vec<Entry>, String>) -> (r: (Vec<Entry>, Option<String>))
    ensures
        entries_view(r.0@) == read_entries(read),
        crate::app::text_view(r.1) == read_error(read),
{
    match read {
        Ok(es) => (sort_listing(es), None),
        Err(m) => {
            let out: Vec<Entry> = Vec::new();
            assert(entries_view(out@) =~= Seq::<EntryView>::empty());
            (out, Some(m))
        },
    }
}

impl Browser {
    /// Makes the chooser over a directory.
    ///
    /// The program reads the directory and gives what it read: the entries,
    /// or the message of the failure. `parent` is the directory above, and
    /// `dir_text` the short form of the directory for the screen. `recent`
    /// holds the files that the user opened before and that still exist.
    pub fn new(
        dir: PathBuf,
        parent: Option<PathBuf>,
        dir_text: String,
        recent: Vec<Entry>,
        read: Result<Vec<Entry>, String>,
    ) -> (b: Browser)
        ensures
            b.wf(),
            b.last_press() is None,
            b@ == (BrowserView {
                dir: dir,
                parent: parent,
                dir_text: dir_text@,
                recent: entries_view(recent@),
                entries: read_entries(read),
                sel: 0,
                find: empty_find(),
                finding: false,
                all_files: false,
                error: read_error(read),
                chosen: None,
                quit: false,
                database: None,
                lines: Seq::empty(),
            }),
    {
        let (entries, error) = entries_of_read(read);
        let b = Browser {
            dir,
            parent,
            dir_text,
            recent,
            entries,
            sel: 0,
            find: LineInput::default(),
            finding: false,
            all_files: false,
            error,
            chosen: None,
            quit: false,
            database: None,
            lines: Vec::new(),
            clicks: Clicks::default(),
        };
        assert(b@.find == empty_find());
        b
    }

    /// Makes the chooser for the tables of one database.
    ///
    /// `path` is the file of the database, `dir` the directory that holds it,
    /// `label` the name that the title bar gives it, and `format` the name of
    /// its format. The catalog of the database gives the tables, with no scan
    /// of the data.
    pub fn of_database(path: PathBuf, dir: PathBuf, label: String, format: String, tables: Vec<TableInfo>) -> (b: Browser)
        ensures
            b.wf(),
            b.last_press() is None,
            b@ == (BrowserView {
                dir: dir,
                parent: None,
                dir_text: Seq::empty(),
                recent: Seq::empty(),
                entries: tables@.map_values(|t: TableInfo| table_entry(path, format@, t)),
                sel: 0,
                find: empty_find(),
                finding: false,
                all_files: false,
                error: None,
                chosen: None,
                quit: false,
                database: Some(label@),
                lines: Seq::empty(),
            }),
    {
        let mut entries: Vec<Entry> = Vec::new();
        let mut i: usize = 0;
        while i < tables.len()
            invariant
                i <= tables@.len(),
                entries_view(entries@) == tables@.take(i as int).map_values(|t: TableInfo| table_entry(path, format@, t)),
            decreases tables@.len() - i,
        {
            let t = &tables[i];
            let e = Entry {
                path: copy_path(&path),
                name: t.label(),
                is_dir: false,
                bytes: 0,
                modified: None,
                format: Some(format.clone()),
                is_recent: false,
                table: Some(t.copy()),
            };
            let ghost before = entries_view(entries@);
            entries.push(e);
            assert(entries_view(entries@) =~= before.push(table_entry(path, format@, tables@[i as int])));
            assert(tables@.take(i + 1).map_values(|t: TableInfo| table_entry(path, format@, t)) =~= tables@.take(
                i as int,
            ).map_values(|t: TableInfo| table_entry(path, format@, t)).push(table_entry(path, format@, tables@[i as int])));
            i += 1;
        }
        assert(tables@.take(i as int) =~= tables@);
        let recent: Vec<Entry> = Vec::new();
        assert(entries_view(recent@) =~= Seq::<EntryView>::empty());
        let b = Browser {
            dir,
            parent: None,
            dir_text: String::new(),
            recent,
            entries,
            sel: 0,
            find: LineInput::default(),
            finding: false,
            all_files: false,
            error: None,
            chosen: None,
            quit: false,
            database: Some(label),
            lines: Vec::new(),
            clicks: Clicks::default(),
        };
        assert(b@.find == empty_find());
        b
    }

    /// Shows another directory, after a [`Request`]: the program read it and
    /// gives what it read, as to [`Browser::new`]. The find box empties and
    /// gives up the focus, and the cursor goes to the first line; after a read
    /// that failed, the cursor stays where it was.
    pub fn show_dir(&mut self, dir: PathBuf, parent: Option<PathBuf>, dir_text: String, read: Result<Vec<Entry>, String>)
        requires
            old(self).wf(),
        ensures
            final(self).wf(),
            final(self).last_press() == old(self).last_press(),
            final(self)@ == (BrowserView {
                dir: dir,
                parent: parent,
                dir_text: dir_text@,
                entries: read_entries(read),
                error: read_error(read),
                sel: if read is Ok { 0 } else { old(self)@.sel },
                find: reset_to(old(self)@.find, Seq::empty()),
                finding: false,
                ..old(self)@
            }),
    {
        let ok = read.is_ok();
        self.dir = dir;
        self.parent = parent;
        self.dir_text = dir_text;
        self.find.clear();
        self.finding = false;
        let (entries, error) = entries_of_read(read);
        self.entries = entries;
        self.error = error;
        if ok {
            self.sel = 0;
        }
    }
}

} // verus!

verus! {

/// The characters of a path with `/` in place of each `\`.
pub open spec fn slashed(s: Seq<char>) -> Seq<char> {
    s.map_values(|c: char| if c == '\\' { '/' } else { c })
}

/// A path in its short form: with `/` in place of each `\`, and with `~` in
/// place of the home directory at its start.
pub open spec fn short_path_text(full: Seq<char>, home: Option<Seq<char>>) -> Seq<char> {
    match home {
        Some(h) => if slashed(h).is_prefix_of(slashed(full)) {
            seq!['~'] + slashed(full).skip(slashed(h).len() as int)
        } else {
            slashed(full)
        },
        None => slashed(full),
    }
}

/// Gives the characters of a path with `/` in place of each `\`.
fn slashed_chars(s: &str) -> (r: Vec<char>)
    ensures
        r@ == slashed(s@),
{
    let cs = chars_of(s);
    let mut out: Vec<char> = Vec::new();
    let mut i: usize = 0;
    while i < cs.len()
        invariant
            i <= cs@.len(),
            cs@ == s@,
            out@ == slashed(cs@.take(i as int)),
        decreases cs@.len() - i,
    {
        let c = cs[i];
        out.push(if c == '\\' { '/' } else { c });
        i += 1;
        assert(out@ =~= slashed(cs@.take(i as int)));
    }
    assert(cs@.take(i as int) =~= cs@);
    out
}

/// Writes a path in a short form, with the home directory as `~`. The
/// program gives the path and the home directory as texts.
pub fn short_path(full: &str, home: Option<&str>) -> (r: String)
    ensures
        r@ == short_path_text(full@, match home {
            Some(h) => Some(h@),
            None => None,
        }),
{
    let f = slashed_chars(full);
    if let Some(h) = home {
        let hc = slashed_chars(h);
        if crate::app::starts_with_chars(&f, &hc) {
            let mut out = String::from_str("~");
            let rest = crate::chars::text_of_range(f.as_slice(), hc.len(), f.len());
            out.append(rest.as_str());
            proof {
                reveal_strlit("~");
                assert(out@ =~= seq!['~'] + slashed(full@).skip(slashed(h@).len() as int));
            }
            return out;
        }
    }
    crate::chars::text_of(f.as_slice())
}

} // verus!

verus! {

/// Gives `true` for a line that holds an entry, and not a heading.
pub open spec fn is_item(r: RowView) -> bool {
    r is Item
}

/// The count of the entries among the first `i` lines.
pub open spec fn items_before(rows: Seq<RowView>, i: int) -> nat {
    rows.take(i).filter(|r: RowView| is_item(r)).len()
}

/// The line of the entry that the cursor is on, with the cursor kept inside
/// the list; the first line when the list holds no entry.
pub open spec fn cursor_row(rows: Seq<RowView>, sel: nat) -> int {
    let n = items_before(rows, rows.len() as int);
    let s = if sel < n { sel as int } else if n > 0 { n - 1 } else { 0 };
    if exists|i: int| 0 <= i < rows.len() && is_item(#[trigger] rows[i]) && items_before(rows, i) == s {
        choose|i: int| 0 <= i < rows.len() && is_item(#[trigger] rows[i]) && items_before(rows, i) == s
    } else {
        0
    }
}

/// The first line that a window of `h` lines shows: the window scrolls only
/// as far as it must to show the line of the cursor on its last row.
pub open spec fn first_shown(rows: Seq<RowView>, sel: nat, h: int) -> int {
    let r = cursor_row(rows, sel);
    if r > h - 1 && h > 0 {
        r - (h - 1)
    } else if h == 0 {
        r
    } else {
        0
    }
}

/// Gives `true` for the lines of a window from line `start` that hold an
/// entry.
pub open spec fn shows_entry(rows: Seq<RowView>, start: int) -> spec_fn(int) -> bool {
    |k: int| is_item(rows[start + k])
}

/// The row of the terminal, from `top` down, and the position in the list of
/// the entry on line `k` of a window from line `start`.
pub open spec fn shown_at(rows: Seq<RowView>, start: int, top: int) -> spec_fn(int) -> (u16, usize) {
    |k: int| ((top + k) as u16, items_before(rows, start + k) as usize)
}

/// The pairs of [`shown_at`] for the entries among the first `k` lines of a
/// window from line `start`.
pub open spec fn shown_upto(rows: Seq<RowView>, start: int, k: nat, top: int) -> Seq<(u16, usize)> {
    Seq::new(k, |j: int| j).filter(shows_entry(rows, start)).map_values(shown_at(rows, start, top))
}

/// Where each entry of a window of `h` lines from line `start` is on the
/// screen: the row of the terminal, from `top` down, and the position of the
/// entry in the list. A heading gets no pair.
pub open spec fn window_lines(rows: Seq<RowView>, start: int, h: int, top: int) -> Seq<(u16, usize)> {
    let m = if start + h <= rows.len() { h } else if start <= rows.len() { rows.len() - start } else { 0 };
    shown_upto(rows, start, m as nat, top)
}

/// One more line of a window adds its pair when it holds an entry.
proof fn lemma_shown_step(rows: Seq<RowView>, start: int, k: nat, top: int)
    ensures
        shown_upto(rows, start, k + 1, top) == if is_item(rows[start + k]) {
            shown_upto(rows, start, k, top).push(shown_at(rows, start, top)(k as int))
        } else {
            shown_upto(rows, start, k, top)
        },
{
    let s = Seq::new(k, |j: int| j);
    assert(Seq::new(k + 1, |j: int| j) =~= s.push(k as int));
    s.lemma_filter_push(k as int, shows_entry(rows, start));
    let f = s.filter(shows_entry(rows, start));
    assert(f.push(k as int).map_values(shown_at(rows, start, top)) =~= f.map_values(shown_at(rows, start, top)).push(
        shown_at(rows, start, top)(k as int),
    ));
}

/// The count of the entries before a line grows by one at each entry.
proof fn lemma_items_before_step(rows: Seq<RowView>, i: int)
    requires
        0 <= i < rows.len(),
    ensures
        items_before(rows, i + 1) == items_before(rows, i) + if is_item(rows[i]) { 1int } else { 0int },
{
    assert(rows.take(i + 1) =~= rows.take(i).push(rows[i]));
    rows.take(i).lemma_filter_push(rows[i], |r: RowView| is_item(r));
}

/// Lines after a line hold at least as many entries before them.
proof fn lemma_items_before_grows(rows: Seq<RowView>, i: int, j: int)
    requires
        0 <= i <= j <= rows.len(),
    ensures
        items_before(rows, i) <= items_before(rows, j),
        i < j && is_item(rows[i]) ==> items_before(rows, i) < items_before(rows, j),
    decreases j - i,
{
    if i < j {
        lemma_items_before_grows(rows, i, j - 1);
        lemma_items_before_step(rows, j - 1);
        if i < j - 1 && is_item(rows[i]) {
        } else if i == j - 1 {
        }
    }
}

impl Browser {
    /// Gives the first line that the list shows in a window of `h` rows of
    /// the terminal from row `top`, and where each entry of the window is:
    /// the pairs for [`Browser::set_lines`].
    pub fn list_window(&self, top: u16, h: u16) -> (r: (usize, Vec<(u16, usize)>))
        requires
            top + h <= u16::MAX,
        ensures
            r.0 == first_shown(list_rows(self@), self@.sel, h as int),
            r.1@ == window_lines(list_rows(self@), r.0 as int, h as int, top as int),
    {
        let rows = self.rows();
        let ghost rv = list_rows(self@);
        assert(rows@.map_values(|x: Row| row_view(x)) == rv);
        let n = rows.len();
        let mut items: usize = 0;
        let mut i: usize = 0;
        while i < n
            invariant
                n == rows@.len() == rv.len(),
                rows@.map_values(|x: Row| row_view(x)) == rv,
                i <= n,
                items == items_before(rv, i as int),
                items <= i,
            decreases n - i,
        {
            proof {
                lemma_items_before_step(rv, i as int);
                assert(rv[i as int] == row_view(rows@[i as int]));
            }
            if let Row::Item(_) = &rows[i] {
                items += 1;
            }
            i += 1;
        }
        let sel = if self.sel < items { self.sel } else if items > 0 { items - 1 } else { 0 };
        let mut sel_row: usize = 0;
        let mut at: usize = 0;
        let mut found = false;
        i = 0;
        while i < n
            invariant_except_break
                n == rows@.len() == rv.len(),
                rows@.map_values(|x: Row| row_view(x)) == rv,
                i <= n,
                at == items_before(rv, i as int),
                at <= sel,
                !found,
                sel_row == 0,
            ensures
                found ==> sel_row < n && is_item(rv[sel_row as int]) && items_before(rv, sel_row as int) == sel,
                !found ==> at == items_before(rv, n as int) && at <= sel && sel_row == 0,
            decreases n - i,
        {
            proof {
                lemma_items_before_step(rv, i as int);
                assert(rv[i as int] == row_view(rows@[i as int]));
            }
            if let Row::Item(_) = &rows[i] {
                if at == sel {
                    sel_row = i;
                    found = true;
                    break;
                }
                at += 1;
            }
            i += 1;
        }
        proof {
            let s = sel as int;
            assert(items == items_before(rv, rv.len() as int));
            if found {
                assert forall|j: int| 0 <= j < rv.len() && is_item(#[trigger] rv[j]) && items_before(rv, j) == s implies j == sel_row by {
                    if j < sel_row {
                        lemma_items_before_grows(rv, j, sel_row as int);
                    } else if j > sel_row {
                        lemma_items_before_grows(rv, sel_row as int, j);
                    }
                }
                assert(is_item(rv[sel_row as int]) && items_before(rv, sel_row as int) == s);
                assert(cursor_row(rv, self@.sel) == sel_row);
            } else {
                assert forall|j: int| 0 <= j < rv.len() && is_item(#[trigger] rv[j]) implies items_before(rv, j) != s by {
                    lemma_items_before_grows(rv, j, rv.len() as int);
                }
                assert(cursor_row(rv, self@.sel) == 0);
            }
        }
        let hu = h as usize;
        let start = if hu > 0 && sel_row > hu - 1 { sel_row - (hu - 1) } else if hu == 0 { sel_row } else { 0 };
        let mut item_at: usize = 0;
        i = 0;
        while i < start && i < n
            invariant
                n == rows@.len() == rv.len(),
                rows@.map_values(|x: Row| row_view(x)) == rv,
                i <= n,
                item_at == items_before(rv, i as int),
                item_at <= i,
                i <= start,
            decreases n - i,
        {
            proof {
                lemma_items_before_step(rv, i as int);
                assert(rv[i as int] == row_view(rows@[i as int]));
            }
            if let Row::Item(_) = &rows[i] {
                item_at += 1;
            }
            i += 1;
        }
        let mut lines: Vec<(u16, usize)> = Vec::new();
        let mut k: u16 = 0;
        assert(shown_upto(rv, start as int, 0, top as int) =~= Seq::<(u16, usize)>::empty());
        while k < h && start < n && (k as usize) < n - start
            invariant
                n == rows@.len() == rv.len(),
                rows@.map_values(|x: Row| row_view(x)) == rv,
                k <= h,
                top + h <= u16::MAX,
                start < n ==> item_at == items_before(rv, start + k),
                start < n ==> k <= n - start,
                start >= n ==> k == 0,
                lines@ == shown_upto(rv, start as int, k as nat, top as int),
                item_at <= start + k,
            decreases h - k,
        {
            let ghost idx = start + k;
            proof {
                lemma_items_before_step(rv, idx);
                assert(rv[idx] == row_view(rows@[idx]));
                lemma_shown_step(rv, start as int, k as nat, top as int);
            }
            if let Row::Item(_) = &rows[start + k as usize] {
                lines.push((top + k, item_at));
                item_at += 1;
            }
            k += 1;
        }
        proof {
            let m: int = if start + h <= n { h as int } else if start <= n { n - start } else { 0 };
            if start < n {
                assert(k as int == m);
            } else {
                assert(m == 0);
                assert(k == 0);
            }
        }
        (start, lines)
    }
}

} // verus!

verus! {

/// The keys that the last row of the screen names: those of the find box
/// while the user types in it, those of the list of a database, or those of
/// the list of a directory, which name the other choice of the key `a`.
pub open spec fn hints_text(v: BrowserView) -> Seq<char> {
    if v.finding {
        " type to find · Tab take · Enter list · Esc clear "@
    } else if v.database is Some {
        " j/k move · Enter open · / find a table · q quit "@
    } else if v.all_files {
        " j/k move · Enter open · h up · / find · a data files only · ~ home · q quit "@
    } else {
        " j/k move · Enter open · h up · / find · a every file · ~ home · q quit "@
    }
}

/// What the screen says in place of an empty list.
pub open spec fn empty_text(v: BrowserView) -> Option<Seq<char>> {
    if list_items(v).len() > 0 {
        None
    } else if v.find.chars.len() > 0 {
        Some("no name holds that text"@)
    } else if v.database is Some {
        Some("this database holds no table"@)
    } else {
        Some("no data file here. Press a to show every file, or h to go up."@)
    }
}

/// The name that the list shows for an entry: a directory ends with a slash,
/// and a file that the user opened before shows its directory after it.
pub open spec fn label_text(e: EntryView, parent_text: Seq<char>) -> Seq<char> {
    let label = if e.is_dir { e.name + "/"@ } else { e.name };
    if e.is_recent { label + "   "@ + parent_text } else { label }
}

impl Browser {
    /// Gives the keys that the last row of the screen names.
    pub fn key_hints(&self) -> (r: String)
        ensures
            r@ == hints_text(self@),
    {
        if self.finding {
            String::from_str(" type to find · Tab take · Enter list · Esc clear ")
        } else if self.database.is_some() {
            String::from_str(" j/k move · Enter open · / find a table · q quit ")
        } else if self.all_files {
            String::from_str(" j/k move · Enter open · h up · / find · a data files only · ~ home · q quit ")
        } else {
            String::from_str(" j/k move · Enter open · h up · / find · a every file · ~ home · q quit ")
        }
    }

    /// Gives what the screen says in place of an empty list, or `None` when
    /// the list holds an entry.
    pub fn empty_message(&self) -> (r: Option<String>)
        ensures
            crate::app::text_view(r) == empty_text(self@),
    {
        if self.items().len() > 0 {
            None
        } else if !self.find.is_empty() {
            Some(String::from_str("no name holds that text"))
        } else if self.database.is_some() {
            Some(String::from_str("this database holds no table"))
        } else {
            Some(String::from_str("no data file here. Press a to show every file, or h to go up."))
        }
    }
}

/// Gives the name that the list shows for an entry; `parent_text` is the
/// short form of the directory that holds the file.
pub fn entry_label(e: &Entry, parent_text: &str) -> (r: String)
    ensures
        r@ == label_text(entry_view(*e), parent_text@),
{
    let mut label = e.name.clone();
    if e.is_dir {
        label.append("/");
    }
    if e.is_recent {
        label.append("   ");
        label.append(parent_text);
    }
    label
}

} // verus!

verus! {

/// A movement of the pointer, a drag, a release or a press of another button
/// changes nothing and asks for no frame, whatever the time of the press.
pub proof fn a_quiet_mouse_event_changes_nothing(v: BrowserView, ev: MouseEvent, double: bool)
    requires
        ev.kind != MouseEventKind::ScrollDown,
        ev.kind != MouseEventKind::ScrollUp,
        !left_press(ev),
    ensures
        moused(v, ev, double) == (v, false, RequestView::Stay),
{
}

/// A turn of the wheel moves the cursor inside the list and changes nothing
/// else: it never writes in the find box and never takes its focus.
pub proof fn the_wheel_only_moves_the_cursor(v: BrowserView, ev: MouseEvent, double: bool)
    requires
        ev.kind == MouseEventKind::ScrollDown || ev.kind == MouseEventKind::ScrollUp,
    ensures
        moused(v, ev, double).0 == (BrowserView { sel: moused(v, ev, double).0.sel, ..v }),
        moused(v, ev, double).2 == RequestView::Stay,
        list_items(v).len() > 0 ==> moused(v, ev, double).0.sel < list_items(v).len(),
        moused(v, ev, double).1 == (moused(v, ev, double).0.sel != v.sel),
{
}

/// The keys that walk the file system do nothing in the list of the tables
/// of a database: it has nowhere to walk to.
pub proof fn walking_keys_do_nothing_in_a_database(v: BrowserView, key: KeyEvent)
    requires
        v.database is Some,
        !v.finding,
        key.code == KeyCode::Char('h') || key.code == KeyCode::Left || key.code == KeyCode::Backspace
            || key.code == KeyCode::Char('~') || key.code == KeyCode::Char('a'),
    ensures
        browse_key(v, key) == (v, RequestView::Stay),
{
}

/// A press on a row of the screen that holds no entry, such as the title bar
/// or a heading, changes nothing, even as the second press of a pair.
pub proof fn a_press_beside_the_list_changes_nothing(v: BrowserView, ev: MouseEvent, double: bool)
    requires
        left_press(ev),
        crate::app::first_line(v.lines, ev.row) is None,
    ensures
        moused(v, ev, double) == (v, false, RequestView::Stay),
{
}

} // verus!
