use peruse_tui::commands::{bindings, Cmd};
use peruse_tui::keys::{KeyCode, KeyEvent, KeyModifiers};
use peruse_tui::pickers::{theme_position, Palette, PaletteAction, ThemeAction, ThemePicker};

fn key(code: KeyCode) -> KeyEvent {
    KeyEvent::new(code, KeyModifiers::none())
}

#[test]
fn an_empty_palette_runs_the_first_command_and_walks_the_table() {
    let mut p = Palette::new();
    assert_eq!(p.items().len(), bindings().len());
    assert_eq!(p.on_key(&key(KeyCode::Enter)), PaletteAction::Run(Cmd::RowDown));
    assert_eq!(p.on_key(&key(KeyCode::Down)), PaletteAction::Nothing);
    assert_eq!(p.on_key(&key(KeyCode::Enter)), PaletteAction::Run(Cmd::RowUp));
    p.on_key(&key(KeyCode::Up));
    p.on_key(&key(KeyCode::Up));
    assert_eq!(p.sel, 0, "the selection went above the first match");
    assert_eq!(p.on_key(&key(KeyCode::Esc)), PaletteAction::Close);
}

#[test]
fn typing_in_the_palette_selects_the_first_match() {
    let mut p = Palette::new();
    p.on_key(&key(KeyCode::Down));
    p.on_key(&key(KeyCode::Down));
    for c in "theme".chars() {
        p.on_key(&key(KeyCode::Char(c)));
    }
    assert_eq!(p.sel, 0);
    let items = p.items();
    assert!(!items.is_empty() && items.len() < bindings().len());
    assert!(items.contains(&Cmd::ThemeNext));
    // The selection stops at the last match.
    for _ in 0..items.len() + 3 {
        p.on_key(&key(KeyCode::Down));
    }
    assert_eq!(p.sel, items.len() - 1);
    assert_eq!(p.on_key(&key(KeyCode::Enter)), PaletteAction::Run(items[items.len() - 1]));
}

#[test]
fn a_palette_with_no_match_closes_on_enter() {
    let mut p = Palette::new();
    for c in "zzzz".chars() {
        p.on_key(&key(KeyCode::Char(c)));
    }
    assert!(p.items().is_empty());
    assert_eq!(p.on_key(&key(KeyCode::Enter)), PaletteAction::Close);
}

#[test]
fn a_click_in_the_palette_selects_and_a_double_click_runs() {
    let mut p = Palette::new();
    assert_eq!(p.click(2, false), (true, PaletteAction::Nothing));
    assert_eq!(p.sel, 2);
    assert_eq!(p.click(500, false), (false, PaletteAction::Nothing));
    assert_eq!(p.click(2, true), (true, PaletteAction::Run(Cmd::PageDown)));
}

#[test]
fn the_theme_picker_paints_each_theme_and_gives_the_first_one_back() {
    let mut t = ThemePicker::new(4, 1);
    assert_eq!(t.on_key(&key(KeyCode::Down)), ThemeAction::Preview(2));
    assert_eq!(t.on_key(&key(KeyCode::Char('j'))), ThemeAction::Preview(3));
    // The list ends at the last theme.
    assert_eq!(t.on_key(&key(KeyCode::Down)), ThemeAction::Preview(3));
    assert_eq!(t.on_key(&key(KeyCode::Char('k'))), ThemeAction::Preview(2));
    assert_eq!(t.on_key(&key(KeyCode::Esc)), ThemeAction::Restore(1));
    assert_eq!(t.on_key(&key(KeyCode::Char('x'))), ThemeAction::Nothing);
    assert_eq!(t.on_key(&key(KeyCode::Enter)), ThemeAction::Keep(2));
    assert_eq!(t.on_key(&key(KeyCode::Esc)), ThemeAction::Restore(2));
}

#[test]
fn a_click_in_the_theme_picker_paints_and_a_double_click_keeps() {
    let mut t = ThemePicker::new(3, 0);
    assert_eq!(t.click(2, false), (true, ThemeAction::Preview(2)));
    assert_eq!(t.selected(), 2);
    assert_eq!(t.click(9, false), (false, ThemeAction::Nothing));
    assert_eq!(t.click(2, true), (true, ThemeAction::Keep(2)));
    t.on_key(&key(KeyCode::Up));
    t.on_key(&key(KeyCode::Up));
    t.on_key(&key(KeyCode::Up));
    assert_eq!(t.selected(), 0);
}

#[test]
fn a_theme_is_found_by_its_name_or_keeps_the_fallback() {
    let names: Vec<String> = ["dark", "light", "solar", "light"].iter().map(|s| s.to_string()).collect();
    assert_eq!(theme_position(&names, "light", 0), 1);
    assert_eq!(theme_position(&names, "solar", 0), 2);
    assert_eq!(theme_position(&names, "nord", 0), 0);
    assert_eq!(theme_position(&names, "nord", 3), 3);
    assert_eq!(theme_position(&Vec::new(), "dark", 5), 5);
}
