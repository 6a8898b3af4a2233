use peruse_tui::text::{find_ci, fit, sanitize, truncate, width, width_capped, wrap, Align};

#[test]
fn wide_glyphs_count_as_two_columns() {
    assert_eq!(width("abc"), 3);
    assert_eq!(width("日本"), 4);
}

#[test]
fn control_characters_become_visible() {
    assert_eq!(sanitize("a\nb"), "a␊b");
    assert_eq!(sanitize("a\tb"), "a␉b");
    assert_eq!(sanitize("plain"), "plain");
    assert_eq!(width(&sanitize("a\nb")), 3, "stays one column per char");
}

#[test]
fn truncation_respects_display_width() {
    assert_eq!(truncate("hello", 10), "hello");
    assert_eq!(truncate("hello", 5), "hello");
    assert_eq!(truncate("hello", 4), "hel…");
    assert_eq!(truncate("hello", 0), "");
    let t = truncate("日本語", 4);
    assert!(width(&t) <= 4, "got {t:?} width {}", width(&t));
}

#[test]
fn a_capped_width_agrees_with_the_full_width_below_the_limit() {
    for s in ["", "a", "hello", "日本語", "naïve café", "a\u{130}b"] {
        let full = width(s);
        assert_eq!(width_capped(s, 100), full, "text {s:?}");
        assert!(width_capped(s, 1) >= full.min(1), "text {s:?}");
    }
}

#[test]
fn a_capped_width_stops_at_the_limit() {
    let long = "x".repeat(4096);
    assert_eq!(width_capped(&long, 60), 60);
    let wide = "日".repeat(100);
    let w = width_capped(&wide, 61);
    assert!((61..=62).contains(&w), "got {w}");
}

#[test]
fn fit_pads_to_exact_width_on_the_right_side() {
    assert_eq!(fit("ab", 5, Align::Left), "ab   ");
    assert_eq!(fit("ab", 5, Align::Right), "   ab");
    assert_eq!(width(&fit("日本語", 5, Align::Left)), 5);
    assert_eq!(width(&fit("toolongvalue", 6, Align::Left)), 6);
}

#[test]
fn case_insensitive_find_returns_original_byte_range() {
    let hay = "Hello World";
    let (s, e) = find_ci(hay, "world").unwrap();
    assert_eq!(&hay[s..e], "World");
    assert_eq!(find_ci(hay, "nope"), None);
    assert_eq!(find_ci(hay, ""), None);
}

#[test]
fn find_ci_is_correct_when_a_letter_changes_length() {
    let hay = "Hello \u{130} World";
    let (s, e) = find_ci(hay, "world").unwrap();
    assert_eq!(&hay[s..e], "World");
}

#[test]
fn find_ci_always_gives_character_limits() {
    for hay in ["\u{130}\u{130}World", "a\u{8a9e}b World", "\u{1e9e}World"] {
        if let Some((s, e)) = find_ci(hay, "world") {
            assert!(hay.is_char_boundary(s), "start {s} of {hay:?}");
            assert!(hay.is_char_boundary(e), "end {e} of {hay:?}");
            assert_eq!(hay[s..e].to_lowercase(), "world");
        }
    }
}

#[test]
fn find_ci_handles_multibyte_prefixes() {
    let hay = "日本 target";
    let (s, e) = find_ci(hay, "TARGET").unwrap();
    assert_eq!(&hay[s..e], "target");
}

#[test]
fn wrapping_breaks_on_words_and_keeps_blank_lines() {
    let lines = wrap("the quick brown fox", 10);
    assert!(lines.iter().all(|l| width(l) <= 10), "{lines:?}");
    assert_eq!(wrap("a\n\nb", 10), vec!["a", "", "b"]);
}

#[test]
fn wrapping_splits_a_word_longer_than_the_line() {
    let lines = wrap(&"x".repeat(25), 10);
    assert_eq!(lines.len(), 3);
    assert!(lines.iter().all(|l| width(l) <= 10));
    assert_eq!(lines.concat(), "x".repeat(25));
}

#[test]
fn a_cut_keeps_the_columns_that_fit_and_marks_the_cut() {
    assert_eq!(truncate("日本語", 4), "日…");
    assert_eq!(truncate("abc", 1), "…");
    assert_eq!(fit("abcdef", 4, Align::Right), "abc…");
}

#[test]
fn wrapping_to_no_width_gives_no_line() {
    assert!(wrap("a b", 0).is_empty());
    assert_eq!(wrap("", 5), vec![""]);
}

#[test]
fn a_wrap_keeps_each_character_of_the_lines() {
    let s = "the quick brown fox\r\njumps over\n\nextraordinarily";
    let rows = wrap(s, 6);
    let joined: String = rows.concat();
    assert_eq!(joined, "the quick brown foxjumps overextraordinarily");
}

#[test]
fn a_capped_width_never_passes_the_full_width() {
    for s in ["", "a", "hello", "日本語", "\u{17D8}"] {
        for cap in [0usize, 1, 2, 3, 100, usize::MAX] {
            let r = width_capped(s, cap);
            assert!(r <= width(s), "text {s:?} cap {cap}");
            assert_eq!(r < cap, width(s) < cap, "text {s:?} cap {cap}");
        }
    }
}

#[test]
fn each_wrapped_row_keeps_inside_the_width() {
    let text = "a few words of different lengths, and one longerthanthewidthword\nthen more";
    for w in 1..12 {
        for row in wrap(text, w) {
            assert!(width(&row) <= w, "{row:?} at {w}");
        }
    }
    // A character wider than the row gets a row of its own, after the empty
    // row that it pushed out.
    assert_eq!(wrap("漢字", 1), ["", "漢", "字"]);
}
