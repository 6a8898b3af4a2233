//! The two pickers of the viewer: the command palette, which finds a command
//! by its description, and the theme picker, which paints the screen with
//! each theme while the user moves through the list.
//!
//! Each key gives the state of the picker after it and what the program must
//! do: run a command, close the picker, or paint with a theme.

use vstd::prelude::*;

use crate::commands::Cmd;
use crate::input::{handled, Action, LineInput, LineState};
use crate::keys::{KeyCode, KeyEvent, KeyModifiers};
use crate::overlays::{palette_from, palette_items};

verus! {

/// What the program must do after a key in the command palette.
#[derive(Clone, Copy, Debug, PartialEq, Eq, Structural)]
pub enum PaletteAction {
    /// Nothing more.
    Nothing,
    /// Close the palette.
    Close,
    /// Close the palette and run the command.
    Run(Cmd),
}

/// The command palette: the text that the user types, and the selected
/// command among those that match it.
#[derive(Debug)]
pub struct Palette {
    /// The editor of the text.
    pub input: LineInput,
    /// The position of the selected command among the matches.
    pub sel: usize,
}

/// The palette as values.
pub struct PaletteState {
    pub input: LineState,
    pub sel: nat,
}

impl View for Palette {
    type V = PaletteState;

    closed spec fn view(&self) -> PaletteState {
        PaletteState { input: self.input@, sel: self.sel as nat }
    }
}

/// The commands that match the text of the palette, in the order of the
/// table.
pub open spec fn matches_of(s: PaletteState) -> Seq<Cmd> {
    palette_from(s.input.chars, 0)
}

/// The palette after one key, and what the program must do.
///
/// Esc closes the palette. The arrows up and down move the selection inside
/// the matches. Enter runs the selected command, or closes the palette when
/// nothing matches. Each other key goes to the editor of the text, and a
/// change of the text selects the first match.
pub open spec fn palette_key(s: PaletteState, key: KeyEvent) -> (PaletteState, PaletteAction) {
    let n = matches_of(s).len();
    match key.code {
        KeyCode::Esc => (s, PaletteAction::Close),
        KeyCode::Up => (PaletteState { sel: if s.sel > 0 { (s.sel - 1) as nat } else { 0 }, ..s }, PaletteAction::Nothing),
        KeyCode::Down => (
            PaletteState {
                sel: if s.sel + 1 <= if n > 0 { n - 1 } else { 0 } {
                    s.sel + 1
                } else if n > 0 {
                    (n - 1) as nat
                } else {
                    0
                },
                ..s
            },
            PaletteAction::Nothing,
        ),
        KeyCode::Enter => (
            s,
            if s.sel < n {
                PaletteAction::Run(matches_of(s)[s.sel as int])
            } else {
                PaletteAction::Close
            },
        ),
        _ => {
            let (f, act) = handled(s.input, key);
            (
                PaletteState { input: f, sel: if act == Action::Changed { 0 } else { s.sel }, ..s },
                PaletteAction::Nothing,
            )
        },
    }
}

/// The palette after a click on the match `at`, whether the screen changed,
/// and what the program must do: a double click does what Enter does, and a
/// click on a match selects it.
pub open spec fn palette_click(s: PaletteState, at: nat, double: bool) -> (PaletteState, bool, PaletteAction) {
    if double {
        let (t, a) = palette_key(s, KeyEvent { code: KeyCode::Enter, modifiers: KeyModifiers::spec_none() });
        (t, true, a)
    } else if at >= matches_of(s).len() {
        (s, false, PaletteAction::Nothing)
    } else {
        (PaletteState { sel: at, ..s }, true, PaletteAction::Nothing)
    }
}

impl Palette {
    /// The rules that each state keeps: the text is a well-formed editor.
    pub closed spec fn wf(&self) -> bool {
        self.input.wf()
    }

    /// An empty palette, with the first command selected.
    pub fn new() -> (r: Palette)
        ensures
            r.wf(),
            r@.sel == 0,
            r@.input.chars == Seq::<char>::empty(),
    {
        Palette { input: LineInput::default(), sel: 0 }
    }

    /// Gives the commands that match the text.
    pub fn items(&self) -> (r: Vec<Cmd>)
        ensures
            r@ == matches_of(self@),
    {
        let t = self.input.text();
        palette_items(t.as_str())
    }

    /// Applies one key: refer to [`palette_key`].
    pub fn on_key(&mut self, key: &KeyEvent) -> (r: PaletteAction)
        requires
            old(self).wf(),
        ensures
            final(self).wf(),
            (final(self)@, r) == palette_key(old(self)@, *key),
    {
        match key.code {
            KeyCode::Esc => PaletteAction::Close,
            KeyCode::Up => {
                self.sel = self.sel.saturating_sub(1);
                PaletteAction::Nothing
            },
            KeyCode::Down => {
                let last = self.items().len().saturating_sub(1);
                self.sel = if self.sel < last { self.sel + 1 } else { last };
                PaletteAction::Nothing
            },
            KeyCode::Enter => {
                let items = self.items();
                if self.sel < items.len() {
                    PaletteAction::Run(items[self.sel])
                } else {
                    PaletteAction::Close
                }
            },
            _ => {
                if self.input.handle(key) == Action::Changed {
                    self.sel = 0;
                }
                PaletteAction::Nothing
            },
        }
    }

    /// Applies a click on the match `at`: refer to [`palette_click`].
    pub fn click(&mut self, at: usize, double: bool) -> (r: (bool, PaletteAction))
        requires
            old(self).wf(),
        ensures
            final(self).wf(),
            (final(self)@, r.0, r.1) == palette_click(old(self)@, at as nat, double),
    {
        if double {
            let a = self.on_key(&KeyEvent::new(KeyCode::Enter, KeyModifiers::none()));
            return (true, a);
        }
        if at >= self.items().len() {
            return (false, PaletteAction::Nothing);
        }
        self.sel = at;
        (true, PaletteAction::Nothing)
    }
}

} // verus!

verus! {

/// What the program must do after a key in the theme picker.
#[derive(Clone, Copy, Debug, PartialEq, Eq, Structural)]
pub enum ThemeAction {
    /// Nothing more.
    Nothing,
    /// Paint with the theme at this position of the list, for a look.
    Preview(usize),
    /// Close the picker and paint with the theme at this position again: the
    /// theme of the user from before the picker opened.
    Restore(usize),
    /// Close the picker and keep the theme at this position, in the settings
    /// file too.
    Keep(usize),
}

/// The theme picker: the count of the themes, the theme of the user, and
/// the theme that the picker shows.
#[derive(Debug)]
pub struct ThemePicker {
    count: usize,
    kept: usize,
    sel: usize,
}

/// The theme picker as values.
pub struct ThemeState {
    pub count: nat,
    pub kept: nat,
    pub sel: nat,
}

impl View for ThemePicker {
    type V = ThemeState;

    closed spec fn view(&self) -> ThemeState {
        ThemeState { count: self.count as nat, kept: self.kept as nat, sel: self.sel as nat }
    }
}

/// The picker after it shows the theme at a position, kept inside the list.
pub open spec fn previewed(s: ThemeState, at: int) -> (ThemeState, ThemeAction) {
    let p: nat = if at < s.count { at as nat } else { (s.count - 1) as nat };
    (ThemeState { sel: p, ..s }, ThemeAction::Preview(p as usize))
}

/// The theme picker after one key, and what the program must do.
///
/// Esc closes the picker and gives the theme of the user back. The arrows up
/// and down, and `k` and `j`, paint with the theme before or after the one
/// that the picker shows, inside the list. Enter keeps the theme that the
/// picker shows.
pub open spec fn theme_key(s: ThemeState, key: KeyEvent) -> (ThemeState, ThemeAction) {
    match key.code {
        KeyCode::Esc => (s, ThemeAction::Restore(s.kept as usize)),
        KeyCode::Up => previewed(s, if s.sel > 0 { s.sel - 1 } else { 0int }),
        KeyCode::Char(c) if c == 'k' => previewed(s, if s.sel > 0 { s.sel - 1 } else { 0int }),
        KeyCode::Down => previewed(s, s.sel + 1int),
        KeyCode::Char(c) if c == 'j' => previewed(s, s.sel + 1int),
        KeyCode::Enter => (ThemeState { kept: s.sel, ..s }, ThemeAction::Keep(s.sel as usize)),
        _ => (s, ThemeAction::Nothing),
    }
}

/// The theme picker after a click on the theme `at`, whether the screen
/// changed, and what the program must do: a double click keeps the theme that
/// the picker shows, as Enter does, and a click on a theme paints with it.
pub open spec fn theme_click(s: ThemeState, at: nat, double: bool) -> (ThemeState, bool, ThemeAction) {
    if double {
        let (t, a) = theme_key(s, KeyEvent { code: KeyCode::Enter, modifiers: KeyModifiers::spec_none() });
        (t, true, a)
    } else if at >= s.count {
        (s, false, ThemeAction::Nothing)
    } else {
        let (t, a) = previewed(s, at as int);
        (t, true, a)
    }
}

impl ThemePicker {
    /// The rules that each state keeps: the list holds a theme, and the two
    /// positions name themes of the list.
    pub closed spec fn wf(&self) -> bool {
        self.count > 0 && self.kept < self.count && self.sel < self.count
    }

    /// Opens the picker over `count` themes, on the theme of the user.
    pub fn new(count: usize, kept: usize) -> (r: ThemePicker)
        requires
            kept < count,
        ensures
            r.wf(),
            r@ == (ThemeState { count: count as nat, kept: kept as nat, sel: kept as nat }),
    {
        ThemePicker { count, kept, sel: kept }
    }

    /// Gives the position of the theme that the picker shows.
    pub fn selected(&self) -> (r: usize)
        ensures
            r == self@.sel,
    {
        self.sel
    }

    /// Shows the theme at a position, kept inside the list.
    fn preview(&mut self, at: usize) -> (r: ThemeAction)
        requires
            old(self).wf(),
        ensures
            final(self).wf(),
            (final(self)@, r) == previewed(old(self)@, at as int),
    {
        let at = if at < self.count { at } else { self.count - 1 };
        self.sel = at;
        ThemeAction::Preview(at)
    }

    /// Applies one key: refer to [`theme_key`].
    pub fn on_key(&mut self, key: &KeyEvent) -> (r: ThemeAction)
        requires
            old(self).wf(),
        ensures
            final(self).wf(),
            (final(self)@, r) == theme_key(old(self)@, *key),
    {
        match key.code {
            KeyCode::Esc => ThemeAction::Restore(self.kept),
            KeyCode::Up => {
                let at = self.sel.saturating_sub(1);
                self.preview(at)
            },
            KeyCode::Down => self.preview(self.sel + 1),
            KeyCode::Char(c) => {
                if c == 'k' {
                    let at = self.sel.saturating_sub(1);
                    self.preview(at)
                } else if c == 'j' {
                    self.preview(self.sel + 1)
                } else {
                    ThemeAction::Nothing
                }
            },
            KeyCode::Enter => {
                self.kept = self.sel;
                ThemeAction::Keep(self.sel)
            },
            _ => ThemeAction::Nothing,
        }
    }

    /// Applies a click on the theme `at`: refer to [`theme_click`].
    pub fn click(&mut self, at: usize, double: bool) -> (r: (bool, ThemeAction))
        requires
            old(self).wf(),
        ensures
            final(self).wf(),
            (final(self)@, r.0, r.1) == theme_click(old(self)@, at as nat, double),
    {
        if double {
            let a = self.on_key(&KeyEvent::new(KeyCode::Enter, KeyModifiers::none()));
            return (true, a);
        }
        if at >= self.count {
            return (false, ThemeAction::Nothing);
        }
        let a = self.preview(at);
        (true, a)
    }
}

/// In the theme picker, a step down and a step up come back to the theme of
/// the start, unless the picker was at the last theme; and Esc after any
/// steps gives the theme of the user back.
pub proof fn a_step_down_and_up_comes_back(s: ThemeState, mods: KeyModifiers)
    requires
        s.count > 0,
        s.sel + 1 < s.count,
        s.kept < s.count,
    ensures
        ({
            let down = theme_key(s, KeyEvent { code: KeyCode::Down, modifiers: mods });
            let up = theme_key(down.0, KeyEvent { code: KeyCode::Up, modifiers: mods });
            &&& up.0 == s
            &&& up.1 == ThemeAction::Preview(s.sel as usize)
            &&& theme_key(up.0, KeyEvent { code: KeyCode::Esc, modifiers: mods }).1 == ThemeAction::Restore(
                s.kept as usize,
            )
        }),
{
}


/// The position of the first theme from the position `i` on whose name is
/// `name`, if there is one.
pub open spec fn first_named(names: Seq<Seq<char>>, name: Seq<char>, i: int) -> Option<int>
    decreases names.len() - i,
{
    if i < 0 || i >= names.len() {
        None
    } else if names[i] == name {
        Some(i)
    } else {
        first_named(names, name, i + 1)
    }
}

/// Gives the position of the theme with the name `name` in the list of the
/// themes, or `fallback` when no theme has that name: the viewer starts at
/// the theme of the settings, or at the first one, and a theme that the
/// settings page chose keeps the position it had when the list lacks it.
pub fn theme_position(names: &Vec<String>, name: &str, fallback: usize) -> (r: usize)
    ensures
        r == match first_named(names@.map_values(|n: String| n@), name@, 0) {
            Some(i) => i as usize,
            None => fallback,
        },
{
    let ghost ns = names@.map_values(|n: String| n@);
    let mut i: usize = 0;
    while i < names.len()
        invariant
            i <= names@.len(),
            ns == names@.map_values(|n: String| n@),
            first_named(ns, name@, 0) == first_named(ns, name@, i as int),
        decreases names@.len() - i,
    {
        if crate::chars::same_str(names[i].as_str(), name) {
            assert(ns[i as int] == name@);
            return i;
        }
        i += 1;
    }
    fallback
}

} // verus!
