use peruse_tui::app::Rect;
use peruse_tui::commands::{bindings, fuzzy_match};
use peruse_tui::commands::Cmd;
use peruse_tui::overlays::{centered, centered_rows, match_positions, palette_rect, palette_rows, window_start, PaletteRow};

#[test]
fn the_marked_characters_agree_with_the_match_of_the_palette() {
    for b in bindings() {
        for q in ["", "t", "theme", "sort", "zzz", "next row", "TP", "→", "col"] {
            let got = match_positions(q, b.desc);
            assert_eq!(got.is_some(), fuzzy_match(q, b.desc), "{q:?} against {:?}", b.desc);
            let mut last: Option<usize> = None;
            for i in got.unwrap_or_default() {
                assert!(i < b.desc.len(), "{i} is past {:?}", b.desc);
                assert!(b.desc.is_char_boundary(i), "{i} splits {:?}", b.desc);
                if let Some(l) = last {
                    assert!(i > l, "{i} comes after {l} in {:?}", b.desc);
                }
                last = Some(i);
            }
        }
    }
}

#[test]
fn a_query_with_no_ascii_character_gives_positions_on_character_limits() {
    let hays = [
        "sort by this column (asc → desc → off)",
        "next theme",
        "日本 theme",
        "\u{130}stanbul",
    ];
    for q in ["é", "→", "日本", "\u{130}", "ß", "…", "  ", "t→"] {
        for hay in hays {
            let got = match_positions(q, hay);
            assert_eq!(got.is_some(), fuzzy_match(q, hay), "{q:?} against {hay:?}");
            for i in got.unwrap_or_default() {
                assert!(hay.is_char_boundary(i), "{i} splits {hay:?}");
            }
        }
    }
}

#[test]
fn the_marks_are_the_bytes_of_the_matched_characters() {
    assert_eq!(match_positions("tp", "theme picker"), Some(vec![0, 6]));
    assert_eq!(match_positions("日t", "日本 theme"), Some(vec![0, 7]));
    assert_eq!(match_positions("zz", "theme"), None);
    assert_eq!(match_positions(" ", "theme"), Some(vec![]));
}

#[test]
fn the_palette_box_stays_inside_a_very_wide_terminal() {
    for (w, h) in [(1000u16, 60u16), (2000, 200), (65535, 65535), (20, 6)] {
        let area = Rect { x: 0, y: 0, width: w, height: h };
        let r = palette_rect(area);
        assert!(r.right() <= area.right(), "right edge outside {w}");
        assert!(r.bottom() <= area.bottom(), "bottom edge outside {h}");
    }
}

#[test]
fn a_box_with_a_height_in_rows_stays_inside_a_small_screen() {
    for (w, h) in [(20u16, 6u16), (10, 4), (40, 5), (200, 60), (8, 1)] {
        let area = Rect { x: 0, y: 0, width: w, height: h };
        let c = centered_rows(area, 70, 7, 84);
        assert!(c.bottom() <= area.bottom(), "bottom {} of {h}", c.bottom());
        assert!(c.right() <= area.right(), "right {} of {w}", c.right());
    }
}

#[test]
fn a_very_wide_terminal_does_not_overflow_the_layout_calculation() {
    for (w, h) in [(1000u16, 60u16), (2000, 200), (65535, 65535), (10, 4)] {
        let area = Rect { x: 0, y: 0, width: w, height: h };
        let c = centered(area, 80, 90, 78);
        assert!(c.width <= area.width, "width {} of {w}", c.width);
        assert!(c.height <= area.height, "height {} of {h}", c.height);
        assert!(c.right() <= area.right(), "right edge outside {w}");
        assert!(c.bottom() <= area.bottom(), "bottom edge outside {h}");
    }
}

#[test]
fn a_centered_box_has_its_share_of_the_screen() {
    let c = centered(Rect::new(0, 0, 100, 50), 80, 90, 78);
    assert_eq!(c, Rect { x: 11, y: 2, width: 78, height: 45 });
    let p = palette_rect(Rect::new(0, 0, 110, 24));
    assert_eq!(p, Rect { x: 11, y: 2, width: 88, height: 19 });
}

#[test]
fn a_window_always_holds_the_selected_item() {
    for len in [1usize, 2, 5, 20, 53, 100] {
        for window in [1usize, 2, 4, 15, 60] {
            for sel in [0, 1, len / 2, len - 1].into_iter().filter(|s| *s < len) {
                let start = window_start(sel, len, window);
                let at = format!("len {len} window {window} sel {sel}");
                assert!(start <= sel, "the item is above the window: {at}");
                assert!(sel < start + window, "the item is below the window: {at}");
                if len > window {
                    assert!(start + window <= len, "the window goes past the last item: {at}");
                } else {
                    assert_eq!(start, 0, "a list that fits needs no scroll: {at}");
                }
            }
        }
    }
}

#[test]
fn a_window_shows_the_items_after_the_selected_one() {
    let (sel, len, window) = (20usize, 53usize, 15usize);
    let start = window_start(sel, len, window);
    assert!(start + window > sel + 1, "no item follows the selected one: start {start}");
    assert!(start < sel, "no item comes before the selected one");
}

#[test]
fn a_window_of_no_rows_starts_at_the_first_item() {
    assert_eq!(window_start(9, 20, 0), 0);
    assert_eq!(window_start(0, 0, 5), 0);
    assert_eq!(window_start(9, 0, 0), 0);
}

#[test]
fn the_help_takes_each_command_from_the_table_of_keys() {
    let lines = peruse_tui::overlays::help_lines();
    for b in peruse_tui::commands::bindings() {
        assert!(
            lines.iter().any(|(k, d, head)| k == b.label && d == b.desc && !head),
            "the help has no line for {:?}",
            b.label
        );
    }
    // Each group comes under its own heading, in the order of the groups.
    let heads: Vec<&str> = lines.iter().filter(|l| l.2).map(|l| l.0.as_str()).collect();
    assert_eq!(
        heads,
        [
            "Move",
            "Query",
            "Inspect",
            "Columns",
            "Other",
            "In any prompt",
            "Mouse",
            "Column types — the dim mark after a column name",
            "Notes"
        ]
    );
    assert_eq!(lines[0], (String::new(), String::new(), false));
    assert_eq!(lines[1], ("Move".to_string(), String::new(), true));
    assert_eq!(lines[2], ("j / ↓".to_string(), "next row".to_string(), false));
}

#[test]
fn the_help_names_the_word_keys_of_a_mac() {
    let lines = peruse_tui::overlays::help_lines();
    let row = lines.iter().find(|l| l.0 == "^← / ^→").expect("no row for the word keys");
    for key in ["Alt+←/→", "Alt+B", "Alt+F"] {
        assert!(row.1.contains(key), "the help does not name {key}: {}", row.1);
    }
    let last = lines.last().unwrap();
    assert_eq!(last.0, "clipboard");
}

#[test]
fn an_empty_palette_holds_every_command_in_the_order_of_the_table() {
    let all = peruse_tui::overlays::palette_items("");
    let table: Vec<peruse_tui::commands::Cmd> = bindings().iter().map(|b| b.cmd).collect();
    assert_eq!(all, table);
    // The label of a key finds its command too.
    let by_key = peruse_tui::overlays::palette_items("^D");
    assert!(by_key.contains(&peruse_tui::commands::Cmd::HalfPageDown), "{by_key:?}");
    assert!(peruse_tui::overlays::palette_items("zzzz").is_empty());
}

#[test]
fn the_grouped_palette_puts_a_heading_at_each_change_of_group() {
    let items = [Cmd::RowDown, Cmd::RowUp, Cmd::SortCycle, Cmd::Help];
    let rows = palette_rows(&items, true);
    assert_eq!(
        rows,
        vec![
            PaletteRow::Head("Move"),
            PaletteRow::Item(0, Cmd::RowDown),
            PaletteRow::Item(1, Cmd::RowUp),
            PaletteRow::Blank,
            PaletteRow::Head("Query"),
            PaletteRow::Item(2, Cmd::SortCycle),
            PaletteRow::Blank,
            PaletteRow::Head("Other"),
            PaletteRow::Item(3, Cmd::Help),
        ]
    );
    // Without groups, each row is a command.
    let flat = palette_rows(&items, false);
    assert_eq!(flat.len(), 4);
    assert_eq!(flat[3], PaletteRow::Item(3, Cmd::Help));
}

#[test]
fn the_marks_follow_the_match_of_the_palette_for_a_final_sigma() {
    // The small letters of "ΑΣ" end with a final sigma, so the palette does
    // not keep the text for "σ", and marks nothing.
    assert_eq!(peruse_tui::commands::fuzzy_match("σ", "ΑΣ"), false);
    assert_eq!(match_positions("σ", "ΑΣ"), None);
    assert_eq!(match_positions("ς", "ΑΣ").is_some(), peruse_tui::commands::fuzzy_match("ς", "ΑΣ"));
}

#[test]
fn a_query_of_white_space_matches_and_marks_nothing() {
    assert_eq!(match_positions("   ", "abc"), Some(vec![]));
    assert_eq!(match_positions("\t ", ""), Some(vec![]));
    assert!(fuzzy_match("   ", "abc"));
}
