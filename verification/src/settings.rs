//! The values that the user writes on the settings page: how the page reads
//! each one, and the message that it gives for a value that it refuses.

use vstd::prelude::*;

use crate::app::{band_named, offered, panel_named, Band, Panel, Setting, DEFAULT_STEP, MAX_STEP};
use crate::chars::{read_signed, read_unsigned, signed_read, unsigned_read, ascii_lower_chars, ascii_lowered, chars_of, decimal, decimal_text, quote, quoted, trimmed, trimmed_chars};
use crate::input::{handled, reset_to, Action, LineInput, LineState};
use crate::keys::{plain, KeyCode, KeyEvent};

verus! {

broadcast use vstd::string::group_string_axioms;

/// The number that `str::parse::<usize>` reads from a text, or `None` when
/// it refuses the text: refer to [`unsigned_read`].
pub open spec fn usize_read(s: Seq<char>) -> Option<usize> {
    match unsigned_read(s, usize::MAX as nat) {
        Some(v) => Some(v as usize),
        None => None,
    }
}

/// The number that `str::parse::<u32>` reads from a text, or `None` when it
/// refuses the text: refer to [`unsigned_read`].
pub open spec fn u32_read(s: Seq<char>) -> Option<u32> {
    match unsigned_read(s, u32::MAX as nat) {
        Some(v) => Some(v as u32),
        None => None,
    }
}

/// The number that `str::parse::<i64>` reads from a text, or `None` when it
/// refuses the text: refer to [`signed_read`].
pub open spec fn i64_read(s: Seq<char>) -> Option<i64> {
    match signed_read(s, i64::MAX as nat) {
        Some(v) => Some(v as i64),
        None => None,
    }
}

/// Reads a number from a text, as `str::parse::<usize>` does.
fn read_usize(s: &str) -> (r: Option<usize>)
    ensures
        r == usize_read(s@),
{
    match read_unsigned(s, usize::MAX as u64) {
        Some(v) => Some(v as usize),
        None => None,
    }
}

/// Reads a number from a text, as `str::parse::<u32>` does.
fn read_u32(s: &str) -> (r: Option<u32>)
    ensures
        r == u32_read(s@),
{
    match read_unsigned(s, u32::MAX as u64) {
        Some(v) => Some(v as u32),
        None => None,
    }
}

/// Reads a number from a text, as `str::parse::<i64>` does.
fn read_i64(s: &str) -> (r: Option<i64>)
    ensures
        r == i64_read(s@),
{
    match read_signed(s, i64::MAX as u64) {
        Some(v) => Some(v as i64),
        None => None,
    }
}

/// A value that the settings page read.
#[derive(Debug)]
pub enum SettingValue {
    /// The name of a theme; `None` takes the theme that the viewer builds in.
    Theme(Option<String>),
    /// The threads of DuckDB; `None` takes one for each core.
    Threads(Option<usize>),
    /// The memory of DuckDB, in gigabytes; `None` takes the rule of DuckDB.
    MemoryLimit(Option<u32>),
    /// The rows that the sniffer reads, `-1` for the whole file.
    SampleSize(Option<i64>),
    /// `Some(true)` when the viewer must not index a file of text at the
    /// start.
    NoIndex(Option<bool>),
    /// The panels at the side of the grid.
    Panels(Option<Panel>),
    /// The rows of facts under the column names.
    Band(Option<Band>),
    /// The rows or columns of one step.
    Step(Option<usize>),
}

/// A read value as values.
pub enum ValueView {
    Theme(Option<Seq<char>>),
    Threads(Option<usize>),
    MemoryLimit(Option<u32>),
    SampleSize(Option<i64>),
    NoIndex(Option<bool>),
    Panels(Option<Panel>),
    Band(Option<Band>),
    Step(Option<usize>),
}

/// The value of a read value.
pub open spec fn value_view(v: SettingValue) -> ValueView {
    match v {
        SettingValue::Theme(t) => ValueView::Theme(
            match t {
                Some(s) => Some(s@),
                None => None,
            },
        ),
        SettingValue::Threads(n) => ValueView::Threads(n),
        SettingValue::MemoryLimit(n) => ValueView::MemoryLimit(n),
        SettingValue::SampleSize(n) => ValueView::SampleSize(n),
        SettingValue::NoIndex(b) => ValueView::NoIndex(b),
        SettingValue::Panels(p) => ValueView::Panels(p),
        SettingValue::Band(b) => ValueView::Band(b),
        SettingValue::Step(n) => ValueView::Step(n),
    }
}

/// A text with each ASCII small letter made a capital letter, as
/// `str::to_ascii_uppercase` gives it.
pub open spec fn ascii_uppered(s: Seq<char>) -> Seq<char> {
    s.map_values(|c: char| if 'a' <= c <= 'z' { ((c as u32) - 0x20) as char } else { c })
}

/// A text without its commas and its underscores, which a user writes to
/// group the digits of a large number.
pub open spec fn without_separators(s: Seq<char>) -> Seq<char> {
    s.filter(|c: char| c != ',' && c != '_')
}

/// The digits of a memory limit: the text without the unit `GIB`, `GB` or
/// `G` at its end, and without the white space at its ends.
pub open spec fn memory_digits(upper: Seq<char>) -> Seq<char> {
    let n = upper.len() as int;
    if "GIB"@.is_suffix_of(upper) {
        trimmed(upper.take(n - 3))
    } else if "GB"@.is_suffix_of(upper) {
        trimmed(upper.take(n - 2))
    } else if "G"@.is_suffix_of(upper) {
        trimmed(upper.take(n - 1))
    } else {
        trimmed(upper)
    }
}

/// What the settings page reads from a text for a setting, or the message
/// for a text that it refuses. The text counts without the white space at
/// its ends, and an empty text takes the value that the viewer builds in.
///
/// A theme is read by its name: `theme_fault` is what the lookup of the
/// themes says of the name (`None` when it knows the theme), and a name that
/// it refuses gives its message. The threads are a number of 1 or more. The
/// memory limit is a whole number of gigabytes, 1 or more, with the unit
/// `GIB`, `GB` or `G` or none, in small letters or capitals; each other
/// unit is refused, as a user who writes `512MB` does not mean 512
/// gigabytes. The sample size is a number above zero, or `-1`; the step is a
/// number from 1 to [`MAX_STEP`]; both may group digits with commas or
/// underscores. The index at the start takes `yes`, `true`, `y` or `on`, and
/// `no`, `false`, `n` or `off`. The panels and the band take their names.
pub open spec fn setting_read(s: Setting, text: Seq<char>, theme_fault: Option<Seq<char>>) -> Result<ValueView, Seq<char>> {
    let t = trimmed(text);
    let empty = t.len() == 0;
    match s {
        Setting::Theme => if empty {
            Ok(ValueView::Theme(None))
        } else {
            match theme_fault {
                Some(e) => Err("theme: "@ + e),
                None => Ok(ValueView::Theme(Some(t))),
            }
        },
        Setting::Threads => if empty {
            Ok(ValueView::Threads(None))
        } else {
            match usize_read(t) {
                Some(n) if n >= 1 => Ok(ValueView::Threads(Some(n))),
                _ => Err("threads: "@ + quoted(t) + " is not a number of 1 or more"@),
            }
        },
        Setting::MemoryLimit => if empty {
            Ok(ValueView::MemoryLimit(None))
        } else {
            match u32_read(memory_digits(ascii_uppered(t))) {
                Some(n) if n >= 1 => Ok(ValueView::MemoryLimit(Some(n))),
                _ => Err(
                    "memory limit: write a whole number of gigabytes, such as 8 (got "@ + quoted(t) + ")"@,
                ),
            }
        },
        Setting::SampleSize => if empty {
            Ok(ValueView::SampleSize(None))
        } else {
            match i64_read(without_separators(t)) {
                Some(n) if n == -1 || n > 0 => Ok(ValueView::SampleSize(Some(n))),
                _ => Err("sample size: "@ + quoted(t) + " is not a number, and not -1"@),
            }
        },
        Setting::Panels => if empty {
            Ok(ValueView::Panels(None))
        } else {
            match panel_named(ascii_lowered(trimmed(t))) {
                Some(p) => Ok(ValueView::Panels(Some(p))),
                None => Err("panels: write none, meta, stats or both (got "@ + quoted(t) + ")"@),
            }
        },
        Setting::Band => if empty {
            Ok(ValueView::Band(None))
        } else {
            match band_named(ascii_lowered(trimmed(t))) {
                Some(b) => Ok(ValueView::Band(Some(b))),
                None => Err("column details: write off, compact or detailed (got "@ + quoted(t) + ")"@),
            }
        },
        Setting::Step => if empty {
            Ok(ValueView::Step(None))
        } else {
            match usize_read(without_separators(t)) {
                Some(n) if 1 <= n <= MAX_STEP => Ok(ValueView::Step(Some(n))),
                _ => Err("step: write a number from 1 to "@ + decimal(MAX_STEP as nat) + " (got "@ + quoted(t) + ")"@),
            }
        },
        Setting::NoIndex => {
            let l = ascii_lowered(t);
            if l == ""@ {
                Ok(ValueView::NoIndex(None))
            } else if l == "yes"@ || l == "true"@ || l == "y"@ || l == "on"@ {
                Ok(ValueView::NoIndex(Some(false)))
            } else if l == "no"@ || l == "false"@ || l == "n"@ || l == "off"@ {
                Ok(ValueView::NoIndex(Some(true)))
            } else {
                Err("index at open: write yes or no"@)
            }
        },
    }
}

/// The result of a read as values.
pub open spec fn read_view(r: Result<SettingValue, String>) -> Result<ValueView, Seq<char>> {
    match r {
        Ok(v) => Ok(value_view(v)),
        Err(m) => Err(m@),
    }
}

} // verus!

verus! {

/// Gives the characters with each ASCII small letter made a capital letter.
fn upper_chars(cs: &Vec<char>) -> (r: Vec<char>)
    ensures
        r@ == ascii_uppered(cs@),
{
    let mut out: Vec<char> = Vec::new();
    let mut i: usize = 0;
    while i < cs.len()
        invariant
            i <= cs@.len(),
            out@ == ascii_uppered(cs@.take(i as int)),
        decreases cs@.len() - i,
    {
        let c = cs[i];
        let u = if 'a' <= c && c <= 'z' {
            crate::chars::char_from_code((c as u32) - 0x20)
        } else {
            c
        };
        out.push(u);
        i += 1;
        assert(ascii_uppered(cs@.take(i as int)) =~= ascii_uppered(cs@.take(i - 1)).push(
            if 'a' <= c <= 'z' { ((c as u32) - 0x20) as char } else { c },
        ));
    }
    assert(cs@.take(i as int) =~= cs@);
    out
}

/// Gives the characters without the commas and the underscores.
pub(crate) fn without_separator_chars(cs: &Vec<char>) -> (r: Vec<char>)
    ensures
        r@ == without_separators(cs@),
{
    let mut out: Vec<char> = Vec::new();
    let mut i: usize = 0;
    while i < cs.len()
        invariant
            i <= cs@.len(),
            out@ == without_separators(cs@.take(i as int)),
        decreases cs@.len() - i,
    {
        let c = cs[i];
        proof {
            assert(cs@.take(i + 1) =~= cs@.take(i as int).push(c));
            cs@.take(i as int).lemma_filter_push(c, |c: char| c != ',' && c != '_');
        }
        if c != ',' && c != '_' {
            out.push(c);
        }
        i += 1;
    }
    assert(cs@.take(i as int) =~= cs@);
    out
}

/// Gives `true` when a list of characters ends with a text.
pub(crate) fn ends_with(cs: &Vec<char>, suffix: &str) -> (r: bool)
    ensures
        r == suffix@.is_suffix_of(cs@),
{
    let sc = chars_of(suffix);
    if sc.len() > cs.len() {
        return false;
    }
    let total = cs.len();
    let off = total - sc.len();
    let mut i: usize = 0;
    while i < sc.len()
        invariant
            sc@ == suffix@,
            total == cs@.len(),
            off + sc@.len() == total,
            i <= sc@.len(),
            forall|k: int| 0 <= k < i ==> cs@[off + k] == sc@[k],
        decreases sc@.len() - i,
    {
        if cs[off + i] != sc[i] {
            assert(cs@.subrange(off as int, cs@.len() as int)[i as int] != sc@[i as int]);
            return false;
        }
        i += 1;
    }
    assert(cs@.subrange(off as int, cs@.len() as int) =~= sc@);
    true
}

/// Gives the digits of a memory limit: refer to [`memory_digits`].
fn memory_digit_text(upper: &Vec<char>) -> (r: String)
    ensures
        r@ == memory_digits(upper@),
{
    let n = upper.len();
    let cut: usize = if ends_with(upper, "GIB") {
        proof { reveal_strlit("GIB"); }
        3
    } else if ends_with(upper, "GB") {
        proof { reveal_strlit("GB"); }
        2
    } else if ends_with(upper, "G") {
        proof { reveal_strlit("G"); }
        1
    } else {
        0
    };
    let part = crate::chars::text_of_range(upper.as_slice(), 0, n - cut);
    assert(part@ =~= upper@.take(n - cut));
    proof {
        reveal_strlit("GIB");
        reveal_strlit("GB");
        reveal_strlit("G");
        if cut == 0 {
            assert(upper@.take(n as int) =~= upper@);
        }
    }
    let t = trimmed_chars(part.as_str());
    crate::chars::text_of(t.as_slice())
}

/// Builds a message: a start, the text as the format `{:?}` writes it, and
/// an end.
fn message(start: &str, t: &str, end: &str) -> (r: String)
    ensures
        r@ == start@ + quoted(t@) + end@,
{
    let mut m = String::from_str(start);
    let q = quote(t);
    m.append(q.as_str());
    m.append(end);
    m
}

/// Reads the text that the user wrote for a setting: refer to
/// [`setting_read`]. For the theme, the program looks the name up among the
/// themes, without the white space at its ends, and gives the message of a
/// name that the lookup refuses as `theme_fault`.
pub fn read_setting(s: Setting, text: &str, theme_fault: Option<&str>) -> (r: Result<SettingValue, String>)
    ensures
        read_view(r) == setting_read(
            s,
            text@,
            match theme_fault {
                Some(e) => Some(e@),
                None => None,
            },
        ),
{
    let tc = trimmed_chars(text);
    let t = crate::chars::text_of(tc.as_slice());
    let empty = tc.len() == 0;
    match s {
        Setting::Theme => {
            if empty {
                Ok(SettingValue::Theme(None))
            } else {
                match theme_fault {
                    Some(e) => {
                        let mut m = String::from_str("theme: ");
                        m.append(e);
                        Err(m)
                    },
                    None => Ok(SettingValue::Theme(Some(t))),
                }
            }
        },
        Setting::Threads => {
            if empty {
                return Ok(SettingValue::Threads(None));
            }
            match read_usize(t.as_str()) {
                Some(n) => {
                    if n >= 1 {
                        return Ok(SettingValue::Threads(Some(n)));
                    }
                },
                None => {},
            }
            Err(message("threads: ", t.as_str(), " is not a number of 1 or more"))
        },
        Setting::MemoryLimit => {
            if empty {
                return Ok(SettingValue::MemoryLimit(None));
            }
            let upper = upper_chars(&tc);
            let digits = memory_digit_text(&upper);
            match read_u32(digits.as_str()) {
                Some(n) => {
                    if n >= 1 {
                        return Ok(SettingValue::MemoryLimit(Some(n)));
                    }
                },
                None => {},
            }
            Err(
                message(
                    "memory limit: write a whole number of gigabytes, such as 8 (got ",
                    t.as_str(),
                    ")",
                ),
            )
        },
        Setting::SampleSize => {
            if empty {
                return Ok(SettingValue::SampleSize(None));
            }
            let digits = crate::chars::text_of(without_separator_chars(&tc).as_slice());
            match read_i64(digits.as_str()) {
                Some(n) => {
                    if n == -1 || n > 0 {
                        return Ok(SettingValue::SampleSize(Some(n)));
                    }
                },
                None => {},
            }
            Err(message("sample size: ", t.as_str(), " is not a number, and not -1"))
        },
        Setting::Panels => {
            if empty {
                return Ok(SettingValue::Panels(None));
            }
            match Panel::parse(t.as_str()) {
                Some(p) => Ok(SettingValue::Panels(Some(p))),
                None => Err(message("panels: write none, meta, stats or both (got ", t.as_str(), ")")),
            }
        },
        Setting::Band => {
            if empty {
                return Ok(SettingValue::Band(None));
            }
            match Band::parse(t.as_str()) {
                Some(b) => Ok(SettingValue::Band(Some(b))),
                None => Err(message("column details: write off, compact or detailed (got ", t.as_str(), ")")),
            }
        },
        Setting::Step => {
            if empty {
                return Ok(SettingValue::Step(None));
            }
            let digits = crate::chars::text_of(without_separator_chars(&tc).as_slice());
            match read_usize(digits.as_str()) {
                Some(n) => {
                    if 1 <= n && n <= MAX_STEP {
                        return Ok(SettingValue::Step(Some(n)));
                    }
                },
                None => {},
            }
            let mut start = String::from_str("step: write a number from 1 to ");
            let top = crate::chars::decimal_text(MAX_STEP as u64);
            start.append(top.as_str());
            start.append(" (got ");
            Err(message(start.as_str(), t.as_str(), ")"))
        },
        Setting::NoIndex => {
            let l = ascii_lower_chars(t.as_str());
            if crate::chars::same_text(&l, "") {
                Ok(SettingValue::NoIndex(None))
            } else if crate::chars::same_text(&l, "yes") || crate::chars::same_text(&l, "true")
                || crate::chars::same_text(&l, "y") || crate::chars::same_text(&l, "on") {
                Ok(SettingValue::NoIndex(Some(false)))
            } else if crate::chars::same_text(&l, "no") || crate::chars::same_text(&l, "false")
                || crate::chars::same_text(&l, "n") || crate::chars::same_text(&l, "off") {
                Ok(SettingValue::NoIndex(Some(true)))
            } else {
                Err(String::from_str("index at open: write yes or no"))
            }
        },
    }
}

} // verus!

verus! {

/// The settings, in the order that the page shows them.
pub open spec fn settings_order() -> Seq<Setting> {
    seq![
        Setting::Theme,
        Setting::Threads,
        Setting::MemoryLimit,
        Setting::SampleSize,
        Setting::NoIndex,
        Setting::Panels,
        Setting::Band,
        Setting::Step,
    ]
}

/// The answers that a setting takes, for the completion of its value; a
/// setting that takes a number has none, since no part of a number says what
/// the rest is. The themes are the names of the themes that the program
/// knows, so the program gives them.
pub open spec fn fixed_choices(s: Setting) -> Seq<Seq<char>> {
    match s {
        Setting::Panels => seq!["none"@, "meta"@, "stats"@, "both"@],
        Setting::Band => seq!["off"@, "compact"@, "detailed"@],
        Setting::NoIndex => seq!["yes"@, "no"@],
        _ => Seq::empty(),
    }
}

/// Gives the answers that a setting takes: refer to [`fixed_choices`].
pub fn setting_choices(s: Setting) -> (r: Vec<String>)
    ensures
        r@.map_values(|t: String| t@) == fixed_choices(s),
{
    let words: Vec<&str> = match s {
        Setting::Panels => vec!["none", "meta", "stats", "both"],
        Setting::Band => vec!["off", "compact", "detailed"],
        Setting::NoIndex => vec!["yes", "no"],
        _ => Vec::new(),
    };
    let mut out: Vec<String> = Vec::new();
    let mut i: usize = 0;
    while i < words.len()
        invariant
            i <= words@.len(),
            out@.map_values(|t: String| t@) == words@.take(i as int).map_values(|w: &str| w@),
        decreases words@.len() - i,
    {
        let ghost before = out@.map_values(|t: String| t@);
        out.push(String::from_str(words[i]));
        assert(out@.map_values(|t: String| t@) =~= before.push(words@[i as int]@));
        assert(words@.take(i + 1).map_values(|w: &str| w@) =~= words@.take(i as int).map_values(
            |w: &str| w@,
        ).push(words@[i as int]@));
        i += 1;
    }
    assert(words@.take(i as int) =~= words@);
    assert(out@.map_values(|t: String| t@) =~= fixed_choices(s));
    out
}

/// What the program must do after a key on the settings page.
#[derive(Clone, Copy, Debug, PartialEq, Eq, Structural)]
pub enum PageAction {
    /// Nothing more.
    Nothing,
    /// Close the page.
    Close,
    /// Start to edit the setting: the program gives its value to
    /// [`SettingsPage::edit`].
    Edit(Setting),
    /// Read the text of the editor for the setting with [`read_setting`],
    /// and keep the value.
    Commit(Setting),
    /// Remove the value of the setting, so the viewer uses the value that it
    /// builds in.
    Clear(Setting),
    /// Take the value of the setting that fits this machine.
    Machine(Setting),
    /// Say that the setting has no value from the machine.
    NoMachineValue,
    /// Open the theme picker.
    Themes,
}

/// The settings page: the selected setting, whether the user edits its
/// value, and the editor of the value.
#[derive(Debug)]
pub struct SettingsPage {
    /// The position of the selected setting.
    pub sel: usize,
    /// `true` while the user edits the value.
    pub editing: bool,
    /// The editor of the value.
    pub input: LineInput,
}

/// The page as values.
pub struct PageState {
    pub sel: nat,
    pub editing: bool,
    pub input: LineState,
}

impl View for SettingsPage {
    type V = PageState;

    closed spec fn view(&self) -> PageState {
        PageState { sel: self.sel as nat, editing: self.editing, input: self.input@ }
    }
}

/// The selected setting, with the selection kept inside the list.
pub open spec fn selected_setting(s: PageState) -> Setting {
    settings_order()[if s.sel < 8 { s.sel as int } else { 7 }]
}

/// The page after one key, and what the program must do; `choices` are the
/// answers that the selected setting takes.
///
/// While the user edits a value, Tab takes the answer that the ghost shows,
/// and so does the plain right arrow at the end of the text; Esc stops the
/// edit, and Enter keeps the value. Otherwise: Esc and `q` close the page;
/// `j`, `k` and the arrows move the selection; Enter and `e` edit the value;
/// `d`, Delete and Backspace remove it; `m` takes the value that fits the
/// machine, for the threads and the memory limit; `T` opens the theme picker.
pub open spec fn page_key(s: PageState, key: KeyEvent, choices: Seq<Seq<char>>) -> (PageState, PageAction) {
    let here = selected_setting(s);
    if s.editing {
        let at_end = s.input.cursor >= s.input.chars.len();
        let take = key.code == KeyCode::Tab || (key.code == KeyCode::Right && plain(key) && at_end);
        let ghost_rest = if at_end { offered(s.input.chars, choices) } else { None };
        if take && ghost_rest is Some {
            (PageState { input: reset_to(s.input, s.input.chars + ghost_rest.unwrap()), ..s }, PageAction::Nothing)
        } else {
            let (f, act) = handled(s.input, key);
            match act {
                Action::Cancel => (PageState { input: f, editing: false, ..s }, PageAction::Nothing),
                Action::Submit => (PageState { input: f, ..s }, PageAction::Commit(here)),
                _ => (PageState { input: f, ..s }, PageAction::Nothing),
            }
        }
    } else {
        match key.code {
            KeyCode::Esc => (s, PageAction::Close),
            KeyCode::Char(c) if c == 'q' => (s, PageAction::Close),
            KeyCode::Char(c) if c == 'j' => (PageState { sel: if s.sel + 1 <= 7 { s.sel + 1 } else { 7 }, ..s }, PageAction::Nothing),
            KeyCode::Down => (PageState { sel: if s.sel + 1 <= 7 { s.sel + 1 } else { 7 }, ..s }, PageAction::Nothing),
            KeyCode::Char(c) if c == 'k' => (PageState { sel: if s.sel > 0 { (s.sel - 1) as nat } else { 0 }, ..s }, PageAction::Nothing),
            KeyCode::Up => (PageState { sel: if s.sel > 0 { (s.sel - 1) as nat } else { 0 }, ..s }, PageAction::Nothing),
            KeyCode::Enter => (s, PageAction::Edit(here)),
            KeyCode::Char(c) if c == 'e' => (s, PageAction::Edit(here)),
            KeyCode::Char(c) if c == 'd' => (s, PageAction::Clear(here)),
            KeyCode::Delete => (s, PageAction::Clear(here)),
            KeyCode::Backspace => (s, PageAction::Clear(here)),
            KeyCode::Char(c) if c == 'm' => (
                s,
                if here == Setting::Threads || here == Setting::MemoryLimit {
                    PageAction::Machine(here)
                } else {
                    PageAction::NoMachineValue
                },
            ),
            KeyCode::Char(c) if c == 'T' => (s, PageAction::Themes),
            _ => (s, PageAction::Nothing),
        }
    }
}

/// The page after a click on the setting `at`, whether the screen changed,
/// and what the program must do.
///
/// While the user edits a value a click does nothing, so that the text of the
/// user is never lost. A double click edits the setting, as Enter does, and a
/// click on a setting selects it.
pub open spec fn page_click(s: PageState, at: nat, double: bool) -> (PageState, bool, PageAction) {
    if s.editing {
        (s, false, PageAction::Nothing)
    } else if double {
        (s, true, PageAction::Edit(selected_setting(s)))
    } else if at >= 8 {
        (s, false, PageAction::Nothing)
    } else {
        (PageState { sel: at, ..s }, true, PageAction::Nothing)
    }
}

impl SettingsPage {
    /// The rules that each state keeps: the editor is well formed.
    pub closed spec fn wf(&self) -> bool {
        self.input.wf()
    }

    /// Opens the page on its first setting.
    pub fn new() -> (r: SettingsPage)
        ensures
            r.wf(),
            r@.sel == 0,
            !r@.editing,
            r@.input.chars == Seq::<char>::empty(),
    {
        SettingsPage { sel: 0, editing: false, input: LineInput::default() }
    }

    /// Gives the selected setting.
    pub fn selected(&self) -> (r: Setting)
        ensures
            r == selected_setting(self@),
    {
        let all = Setting::all();
        let i = if self.sel < 8 { self.sel } else { 7 };
        all[i]
    }

    /// Starts to edit the selected setting, with its value in the editor.
    pub fn edit(&mut self, value: &str)
        requires
            old(self).wf(),
        ensures
            final(self).wf(),
            final(self)@ == (PageState { editing: true, input: reset_to(old(self)@.input, value@), ..old(self)@ }),
    {
        self.input.set(value);
        self.editing = true;
    }

    /// Ends the edit of a value, after the program kept it.
    pub fn stop_editing(&mut self)
        ensures
            final(self).wf() == old(self).wf(),
            final(self)@ == (PageState { editing: false, ..old(self)@ }),
    {
        self.editing = false;
    }

    /// Applies one key: refer to [`page_key`]. `choices` are the answers that
    /// the selected setting takes.
    pub fn on_key(&mut self, key: &KeyEvent, choices: &Vec<String>) -> (r: PageAction)
        requires
            old(self).wf(),
        ensures
            final(self).wf(),
            (final(self)@, r) == page_key(old(self)@, *key, choices@.map_values(|t: String| t@)),
    {
        let here = self.selected();
        if self.editing {
            let plain_key = !key.modifiers.control && !key.modifiers.alt;
            let at_end = self.input.cursor_at_end();
            let take = key.code == KeyCode::Tab || (key.code == KeyCode::Right && plain_key && at_end);
            if take && at_end {
                let text = self.input.text();
                match crate::app::offer(text.as_str(), choices) {
                    Some(rest) => {
                        let mut full = text;
                        full.append(rest.as_str());
                        self.input.set(full.as_str());
                        return PageAction::Nothing;
                    },
                    None => {},
                }
            }
            let act = self.input.handle(key);
            return match act {
                Action::Cancel => {
                    self.editing = false;
                    PageAction::Nothing
                },
                Action::Submit => PageAction::Commit(here),
                _ => PageAction::Nothing,
            };
        }
        match key.code {
            KeyCode::Esc => PageAction::Close,
            KeyCode::Down => {
                self.sel = if self.sel < 7 { self.sel + 1 } else { 7 };
                PageAction::Nothing
            },
            KeyCode::Up => {
                self.sel = self.sel.saturating_sub(1);
                PageAction::Nothing
            },
            KeyCode::Enter => PageAction::Edit(here),
            KeyCode::Delete => PageAction::Clear(here),
            KeyCode::Backspace => PageAction::Clear(here),
            KeyCode::Char(c) => {
                if c == 'q' {
                    PageAction::Close
                } else if c == 'j' {
                    self.sel = if self.sel < 7 { self.sel + 1 } else { 7 };
                    PageAction::Nothing
                } else if c == 'k' {
                    self.sel = self.sel.saturating_sub(1);
                    PageAction::Nothing
                } else if c == 'e' {
                    PageAction::Edit(here)
                } else if c == 'd' {
                    PageAction::Clear(here)
                } else if c == 'm' {
                    if here == Setting::Threads || here == Setting::MemoryLimit {
                        PageAction::Machine(here)
                    } else {
                        PageAction::NoMachineValue
                    }
                } else if c == 'T' {
                    PageAction::Themes
                } else {
                    PageAction::Nothing
                }
            },
            _ => PageAction::Nothing,
        }
    }

    /// Applies a click on the setting `at`: refer to [`page_click`].
    pub fn click(&mut self, at: usize, double: bool) -> (r: (bool, PageAction))
        requires
            old(self).wf(),
        ensures
            final(self).wf(),
            (final(self)@, r.0, r.1) == page_click(old(self)@, at as nat, double),
    {
        if self.editing {
            return (false, PageAction::Nothing);
        }
        if double {
            return (true, PageAction::Edit(self.selected()));
        }
        if at >= 8 {
            return (false, PageAction::Nothing);
        }
        self.sel = at;
        (true, PageAction::Nothing)
    }
}

} // verus!

verus! {

impl SettingsPage {
    /// Moves the selection for one turn of the wheel, and gives whether it
    /// moved. While the user edits a value the wheel moves nothing: Enter
    /// writes the text into the selected setting, so a wheel that moved the
    /// selection would write into another one.
    pub fn wheel(&mut self, down: bool) -> (r: bool)
        requires
            old(self).wf(),
        ensures
            final(self).wf(),
            old(self)@.editing ==> final(self)@ == old(self)@ && !r,
            !old(self)@.editing ==> final(self)@ == (PageState {
                sel: if down {
                    if old(self)@.sel + 3 <= 7 { old(self)@.sel + 3 } else { 7 }
                } else {
                    if old(self)@.sel >= 3 { (old(self)@.sel - 3) as nat } else { 0 }
                },
                ..old(self)@
            }) && r == (final(self)@.sel != old(self)@.sel),
    {
        if self.editing {
            return false;
        }
        let before = self.sel;
        self.sel = if down {
            if self.sel <= 4 { self.sel + 3 } else { 7 }
        } else {
            self.sel.saturating_sub(3)
        };
        self.sel != before
    }
}

/// What the program says after it kept a setting.
#[derive(Debug)]
pub enum CommitNote {
    /// Say nothing.
    Quiet,
    /// Show this message.
    Info(String),
    /// Show this fault.
    Fault(String),
}

/// A note after a commit as values.
pub enum NoteView {
    Quiet,
    Info(Seq<char>),
    Fault(Seq<char>),
}

/// The value of a note.
pub open spec fn note_view(n: CommitNote) -> NoteView {
    match n {
        CommitNote::Quiet => NoteView::Quiet,
        CommitNote::Info(m) => NoteView::Info(m@),
        CommitNote::Fault(m) => NoteView::Fault(m@),
    }
}

/// The end of the message when the settings file could not be written: the
/// message of that fault, in brackets.
pub open spec fn kept_text(save_fault: Option<Seq<char>>) -> Seq<char> {
    match save_fault {
        None => Seq::empty(),
        Some(e) => " (not kept: "@ + e + ")"@,
    }
}

/// The note after a setting was kept: a change that reaches only the next
/// file says so, with the fault of the settings file if there was one; any
/// other change says nothing, unless the settings file could not be written.
pub open spec fn commit_note(s: Setting, save_fault: Option<Seq<char>>) -> NoteView {
    if s == Setting::SampleSize || s == Setting::NoIndex {
        NoteView::Info(s.spec_label() + ": takes effect at the next file"@ + kept_text(save_fault))
    } else if save_fault is Some {
        NoteView::Fault(s.spec_label() + kept_text(save_fault))
    } else {
        NoteView::Quiet
    }
}

/// Gives the note after a setting was kept: refer to [`commit_note`]. The
/// program gives the message of the fault that writing the settings file
/// gave, or `None` when it wrote the file.
pub fn commit_message(s: Setting, save_fault: Option<&str>) -> (r: CommitNote)
    ensures
        note_view(r) == commit_note(
            s,
            match save_fault {
                Some(e) => Some(e@),
                None => None,
            },
        ),
{
    let mut kept = String::new();
    match save_fault {
        Some(e) => {
            kept.append(" (not kept: ");
            kept.append(e);
            kept.append(")");
        },
        None => {},
    }
    let ghost fault: Option<Seq<char>> = match save_fault {
        Some(e) => Some(e@),
        None => None,
    };
    assert(kept@ == kept_text(fault));
    if s.at_next_file() {
        let mut m = String::from_str(s.label());
        m.append(": takes effect at the next file");
        m.append(kept.as_str());
        CommitNote::Info(m)
    } else if save_fault.is_some() {
        let mut m = String::from_str(s.label());
        m.append(kept.as_str());
        CommitNote::Fault(m)
    } else {
        CommitNote::Quiet
    }
}

/// The message after the key that removes the value of a setting.
pub fn back_to_default_message(s: Setting) -> (r: String)
    ensures
        r@ == s.spec_label() + ": back to the built-in value"@,
{
    let mut m = String::from_str(s.label());
    m.append(": back to the built-in value");
    m
}

} // verus!

verus! {

/// The values of the settings file that the settings page shows: each one
/// `None` when the file leaves the setting out.
#[derive(Debug)]
pub struct SettingsFile {
    pub theme: Option<String>,
    pub threads: Option<usize>,
    pub memory_limit_gb: Option<u32>,
    pub sample_size: Option<i64>,
    pub no_index: Option<bool>,
    pub panels: Option<String>,
    pub band: Option<String>,
    pub step: Option<usize>,
}

/// A whole number in base ten, with a sign `-` in front of a negative one.
pub open spec fn signed_decimal(v: int) -> Seq<char> {
    if v < 0 {
        "-"@ + decimal((-v) as nat)
    } else {
        decimal(v as nat)
    }
}

/// Writes a whole number in base ten: refer to [`signed_decimal`].
pub fn signed_text(v: i64) -> (r: String)
    ensures
        r@ == signed_decimal(v as int),
{
    if v < 0 {
        let m: u64 = if v == i64::MIN { 0x8000_0000_0000_0000u64 } else { (-v) as u64 };
        let mut r = String::from_str("-");
        r.append(decimal_text(m).as_str());
        r
    } else {
        decimal_text(v as u64)
    }
}

/// A text that the file may hold, or the empty text.
pub open spec fn or_empty(t: Option<String>) -> Seq<char> {
    match t {
        Some(s) => s@,
        None => Seq::empty(),
    }
}

/// The value of a setting as the settings page shows it: the value of the
/// file, or nothing when the file has none. The memory limit shows its
/// unit, and the index at the start shows `yes` when the viewer indexes.
pub open spec fn value_text(s: Setting, f: SettingsFile) -> Seq<char> {
    match s {
        Setting::Theme => or_empty(f.theme),
        Setting::Threads => match f.threads {
            Some(v) => decimal(v as nat),
            None => Seq::empty(),
        },
        Setting::MemoryLimit => match f.memory_limit_gb {
            Some(v) => decimal(v as nat) + " GB"@,
            None => Seq::empty(),
        },
        Setting::SampleSize => match f.sample_size {
            Some(v) => signed_decimal(v as int),
            None => Seq::empty(),
        },
        Setting::NoIndex => match f.no_index {
            Some(true) => "no"@,
            Some(false) => "yes"@,
            None => Seq::empty(),
        },
        Setting::Panels => or_empty(f.panels),
        Setting::Band => or_empty(f.band),
        Setting::Step => match f.step {
            Some(v) => decimal(v as nat),
            None => Seq::empty(),
        },
    }
}

/// Copies a text that the file may hold, or gives the empty text.
fn text_or_empty(t: &Option<String>) -> (r: String)
    ensures
        r@ == or_empty(*t),
{
    match t {
        Some(s) => s.clone(),
        None => String::new(),
    }
}

/// Gives the value of a setting as the settings page shows it: refer to
/// [`value_text`].
pub fn setting_value(s: Setting, f: &SettingsFile) -> (r: String)
    ensures
        r@ == value_text(s, *f),
{
    match s {
        Setting::Theme => text_or_empty(&f.theme),
        Setting::Threads => match f.threads {
            Some(v) => decimal_text(v as u64),
            None => String::new(),
        },
        Setting::MemoryLimit => match f.memory_limit_gb {
            Some(v) => {
                let mut r = decimal_text(v as u64);
                r.append(" GB");
                r
            },
            None => String::new(),
        },
        Setting::SampleSize => match f.sample_size {
            Some(v) => signed_text(v),
            None => String::new(),
        },
        Setting::NoIndex => match f.no_index {
            Some(true) => String::from_str("no"),
            Some(false) => String::from_str("yes"),
            None => String::new(),
        },
        Setting::Panels => text_or_empty(&f.panels),
        Setting::Band => text_or_empty(&f.band),
        Setting::Step => match f.step {
            Some(v) => decimal_text(v as u64),
            None => String::new(),
        },
    }
}

/// The value that the viewer uses when a setting has none, as the settings
/// page shows it: `cores` is the number of cores of the machine, and
/// `memory_gb` the memory limit that fits the machine, when the viewer
/// knows one.
pub open spec fn default_text(s: Setting, cores: usize, memory_gb: Option<u64>) -> Seq<char> {
    match s {
        Setting::Theme => "peruse-dark"@,
        Setting::Threads => decimal(cores as nat) + " (one for each core)"@,
        Setting::MemoryLimit => match memory_gb {
            Some(gb) => decimal(gb as nat) + " GB (half of this machine)"@,
            None => "the rule of DuckDB"@,
        },
        Setting::SampleSize => "20,480 rows"@,
        Setting::NoIndex => "yes, below 256 MB"@,
        Setting::Panels => "none"@,
        Setting::Band => "off"@,
        Setting::Step => decimal(DEFAULT_STEP as nat) + " rows or columns"@,
    }
}

/// Gives the value that the viewer uses when a setting has none: refer to
/// [`default_text`].
pub fn setting_default(s: Setting, cores: usize, memory_gb: Option<u64>) -> (r: String)
    ensures
        r@ == default_text(s, cores, memory_gb),
{
    match s {
        Setting::Theme => String::from_str("peruse-dark"),
        Setting::Threads => {
            let mut r = decimal_text(cores as u64);
            r.append(" (one for each core)");
            r
        },
        Setting::MemoryLimit => match memory_gb {
            Some(gb) => {
                let mut r = decimal_text(gb);
                r.append(" GB (half of this machine)");
                r
            },
            None => String::from_str("the rule of DuckDB"),
        },
        Setting::SampleSize => String::from_str("20,480 rows"),
        Setting::NoIndex => String::from_str("yes, below 256 MB"),
        Setting::Panels => String::from_str("none"),
        Setting::Band => String::from_str("off"),
        Setting::Step => {
            let mut r = decimal_text(DEFAULT_STEP as u64);
            r.append(" rows or columns");
            r
        },
    }
}

} // verus!
