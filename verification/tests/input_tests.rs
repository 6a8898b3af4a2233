use peruse_tui::input::{Action, LineInput};
use peruse_tui::keys::{KeyCode, KeyEvent, KeyModifiers};

fn key(code: KeyCode) -> KeyEvent {
    KeyEvent::new(code, KeyModifiers::none())
}

fn ctrl(c: char) -> KeyEvent {
    KeyEvent::new(KeyCode::Char(c), KeyModifiers::control())
}

fn typed(s: &str) -> LineInput {
    let mut i = LineInput::default();
    for c in s.chars() {
        i.handle(&key(KeyCode::Char(c)));
    }
    i
}

#[test]
fn typing_and_backspace() {
    let mut i = typed("abc");
    assert_eq!(i.text(), "abc");
    assert_eq!(i.handle(&key(KeyCode::Backspace)), Action::Changed);
    assert_eq!(i.text(), "ab");
    i.handle(&key(KeyCode::Home));
    assert_eq!(i.handle(&key(KeyCode::Backspace)), Action::Ignored);
}

#[test]
fn insertion_happens_at_the_cursor_not_the_end() {
    let mut i = typed("ac");
    i.handle(&key(KeyCode::Left));
    i.handle(&key(KeyCode::Char('b')));
    assert_eq!(i.text(), "abc");
}

#[test]
fn cursor_column_uses_display_width() {
    let mut i = typed("日本x");
    assert_eq!(i.cursor_col(), 5);
    i.handle(&key(KeyCode::Home));
    assert_eq!(i.cursor_col(), 0);
}

#[test]
fn multibyte_editing_does_not_panic_or_corrupt() {
    let mut i = typed("naïve café");
    i.handle(&ctrl('w'));
    assert_eq!(i.text(), "naïve ");
    i.handle(&ctrl('u'));
    assert_eq!(i.text(), "");
}

#[test]
fn kill_to_end_and_start() {
    let mut i = typed("hello world");
    i.handle(&key(KeyCode::Left));
    i.handle(&ctrl('k'));
    assert_eq!(i.text(), "hello worl");
    i.handle(&ctrl('a'));
    i.handle(&ctrl('k'));
    assert_eq!(i.text(), "");
}

#[test]
fn word_delete_skips_trailing_spaces() {
    let mut i = typed("select a from   ");
    i.handle(&ctrl('w'));
    assert_eq!(i.text(), "select a ");
}

#[test]
fn submit_and_cancel_are_reported() {
    let mut i = typed("x");
    assert_eq!(i.handle(&key(KeyCode::Enter)), Action::Submit);
    assert_eq!(i.handle(&key(KeyCode::Esc)), Action::Cancel);
    assert_eq!(i.handle(&ctrl('c')), Action::Cancel);
}

#[test]
fn history_walks_back_and_forward_and_restores_the_draft() {
    let mut i = typed("first");
    i.remember();
    i.clear();
    for c in "second".chars() {
        i.handle(&key(KeyCode::Char(c)));
    }
    i.remember();
    i.clear();
    for c in "draft".chars() {
        i.handle(&key(KeyCode::Char(c)));
    }
    i.handle(&key(KeyCode::Up));
    assert_eq!(i.text(), "second");
    i.handle(&key(KeyCode::Up));
    assert_eq!(i.text(), "first");
    i.handle(&key(KeyCode::Up));
    assert_eq!(i.text(), "first", "stops at the oldest entry");
    i.handle(&key(KeyCode::Down));
    assert_eq!(i.text(), "second");
    i.handle(&key(KeyCode::Down));
    assert_eq!(i.text(), "draft", "the unsent line comes back");
}

#[test]
fn re_running_an_entry_moves_it_to_the_front_rather_than_duplicating() {
    let mut i = LineInput::default();
    for entry in ["alpha", "beta", "alpha"] {
        i.set(entry);
        i.remember();
    }
    i.clear();
    i.remember();
    i.handle(&key(KeyCode::Up));
    assert_eq!(i.text(), "alpha", "most recent first");
    i.handle(&key(KeyCode::Up));
    assert_eq!(i.text(), "beta");
    i.handle(&key(KeyCode::Up));
    assert_eq!(i.text(), "beta", "only two entries, not three");
}

#[test]
fn down_with_no_history_browsing_is_ignored() {
    let mut i = typed("x");
    assert_eq!(i.handle(&key(KeyCode::Down)), Action::Ignored);
}

#[test]
fn the_name_in_front_of_the_cursor_stops_at_a_punctuation_character() {
    assert_eq!(typed("amount").word_before_cursor(), "amount");
    assert_eq!(typed("a > am").word_before_cursor(), "am");
    assert_eq!(typed("lower(reg").word_before_cursor(), "reg");
    assert_eq!(typed("a = ").word_before_cursor(), "");
    assert_eq!(typed("").word_before_cursor(), "");
}

#[test]
fn completing_a_name_replaces_only_that_name() {
    let mut i = typed("amount > 1 AND reg");
    i.replace_word_before_cursor("region");
    assert_eq!(i.text(), "amount > 1 AND region");
    assert_eq!(i.cursor_col(), i.text().chars().count());
}

#[test]
fn completing_in_the_middle_of_a_line_keeps_the_end() {
    let mut i = typed("reg = 'EU'");
    for _ in 0..7 {
        i.handle(&key(KeyCode::Left));
    }
    i.replace_word_before_cursor("region");
    assert_eq!(i.text(), "region = 'EU'");
}

#[test]
fn completing_a_name_with_characters_of_more_than_one_byte_is_correct() {
    let mut i = typed("café");
    i.replace_word_before_cursor("café_total");
    assert_eq!(i.text(), "café_total");
}

#[test]
fn a_typed_character_and_a_backspace_give_the_line_back() {
    let mut i = typed("sel");
    i.handle(&key(KeyCode::Left));
    let before = i.text();
    i.handle(&key(KeyCode::Char('x')));
    assert_eq!(i.text(), "sexl");
    i.handle(&key(KeyCode::Backspace));
    assert_eq!(i.text(), before);
}

#[test]
fn the_cursor_knows_when_it_is_at_the_end() {
    let mut i = typed("ab");
    assert!(i.cursor_at_end());
    i.handle(&key(KeyCode::Left));
    assert!(!i.cursor_at_end());
    assert!(!i.is_empty());
    i.clear();
    assert!(i.is_empty());
}
