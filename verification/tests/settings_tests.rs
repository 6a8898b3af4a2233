use peruse_tui::app::{Band, Panel, Setting};
use peruse_tui::keys::{KeyCode, KeyEvent, KeyModifiers};
use peruse_tui::settings::{
    back_to_default_message, commit_message, read_setting, CommitNote, setting_default, setting_value, SettingsFile, setting_choices, PageAction, SettingValue, SettingsPage,
};

fn key(code: KeyCode) -> KeyEvent {
    KeyEvent::new(code, KeyModifiers::none())
}

fn err(s: Setting, t: &str) -> String {
    match read_setting(s, t, None) {
        Err(m) => m,
        Ok(v) => panic!("{t:?} was read as {v:?}"),
    }
}

#[test]
fn the_threads_are_a_number_of_one_or_more() {
    assert!(matches!(read_setting(Setting::Threads, "4", None), Ok(SettingValue::Threads(Some(4)))));
    assert!(matches!(read_setting(Setting::Threads, " 8 ", None), Ok(SettingValue::Threads(Some(8)))));
    assert!(matches!(read_setting(Setting::Threads, "  ", None), Ok(SettingValue::Threads(None))));
    assert_eq!(err(Setting::Threads, "0"), "threads: \"0\" is not a number of 1 or more");
    assert_eq!(err(Setting::Threads, "many"), "threads: \"many\" is not a number of 1 or more");
}

#[test]
fn the_memory_limit_takes_gigabytes_and_refuses_each_other_unit() {
    for t in ["8", "8GB", "8gb", "8 GiB", "8g", " 8 G "] {
        assert!(
            matches!(read_setting(Setting::MemoryLimit, t, None), Ok(SettingValue::MemoryLimit(Some(8)))),
            "{t:?}"
        );
    }
    assert_eq!(
        err(Setting::MemoryLimit, "512MB"),
        "memory limit: write a whole number of gigabytes, such as 8 (got \"512MB\")"
    );
    assert!(read_setting(Setting::MemoryLimit, "0GB", None).is_err());
    assert!(matches!(read_setting(Setting::MemoryLimit, "", None), Ok(SettingValue::MemoryLimit(None))));
}

#[test]
fn the_sample_size_and_the_step_group_their_digits() {
    assert!(matches!(read_setting(Setting::SampleSize, "20,480", None), Ok(SettingValue::SampleSize(Some(20480)))));
    assert!(matches!(read_setting(Setting::SampleSize, "-1", None), Ok(SettingValue::SampleSize(Some(-1)))));
    assert_eq!(err(Setting::SampleSize, "0"), "sample size: \"0\" is not a number, and not -1");
    assert!(read_setting(Setting::SampleSize, "-2", None).is_err());
    assert!(matches!(read_setting(Setting::Step, "1_000", None), Ok(SettingValue::Step(Some(1000)))));
    assert_eq!(err(Setting::Step, "1001"), "step: write a number from 1 to 1000 (got \"1001\")");
    assert!(read_setting(Setting::Step, "0", None).is_err());
}

#[test]
fn the_index_the_panels_and_the_band_take_their_words() {
    assert!(matches!(read_setting(Setting::NoIndex, "Yes", None), Ok(SettingValue::NoIndex(Some(false)))));
    assert!(matches!(read_setting(Setting::NoIndex, "off", None), Ok(SettingValue::NoIndex(Some(true)))));
    assert!(matches!(read_setting(Setting::NoIndex, "", None), Ok(SettingValue::NoIndex(None))));
    assert_eq!(err(Setting::NoIndex, "maybe"), "index at open: write yes or no");
    assert!(matches!(read_setting(Setting::Panels, " Both ", None), Ok(SettingValue::Panels(Some(Panel::Both)))));
    assert_eq!(err(Setting::Panels, "x"), "panels: write none, meta, stats or both (got \"x\")");
    assert!(matches!(read_setting(Setting::Band, "Detail", None), Ok(SettingValue::Band(Some(Band::Detailed)))));
    assert_eq!(
        err(Setting::Band, "wide"),
        "column details: write off, compact or detailed (got \"wide\")"
    );
    assert!(matches!(read_setting(Setting::Theme, " dark ", None), Ok(SettingValue::Theme(Some(t))) if t == "dark"));
    assert!(matches!(read_setting(Setting::Theme, "", None), Ok(SettingValue::Theme(None))));
}

#[test]
fn the_page_walks_the_settings_and_edits_one() {
    let none: Vec<String> = Vec::new();
    let mut p = SettingsPage::new();
    assert_eq!(p.on_key(&key(KeyCode::Char('j')), &none), PageAction::Nothing);
    assert_eq!(p.selected(), Setting::Threads);
    for _ in 0..10 {
        p.on_key(&key(KeyCode::Down), &none);
    }
    assert_eq!(p.selected(), Setting::Step);
    assert_eq!(p.on_key(&key(KeyCode::Enter), &none), PageAction::Edit(Setting::Step));
    p.edit("10");
    assert!(p.editing);
    p.on_key(&key(KeyCode::Backspace), &none);
    p.on_key(&key(KeyCode::Char('5')), &none);
    assert_eq!(p.input.text(), "15");
    assert_eq!(p.on_key(&key(KeyCode::Enter), &none), PageAction::Commit(Setting::Step));
    p.stop_editing();
    assert_eq!(p.on_key(&key(KeyCode::Char('d')), &none), PageAction::Clear(Setting::Step));
    assert_eq!(p.on_key(&key(KeyCode::Char('m')), &none), PageAction::NoMachineValue);
    assert_eq!(p.on_key(&key(KeyCode::Char('T')), &none), PageAction::Themes);
    assert_eq!(p.on_key(&key(KeyCode::Char('q')), &none), PageAction::Close);
    assert_eq!(back_to_default_message(Setting::Step), "step: back to the built-in value");
}

#[test]
fn tab_takes_the_answer_of_a_setting_and_esc_stops_the_edit() {
    let mut p = SettingsPage::new();
    p.click(5, false);
    assert_eq!(p.selected(), Setting::Panels);
    let choices = setting_choices(Setting::Panels);
    assert_eq!(choices, ["none", "meta", "stats", "both"]);
    p.edit("");
    p.on_key(&key(KeyCode::Char('s')), &choices);
    p.on_key(&key(KeyCode::Tab), &choices);
    assert_eq!(p.input.text(), "stats");
    // A click while the user edits a value does nothing.
    assert_eq!(p.click(1, false), (false, PageAction::Nothing));
    assert!(!p.wheel(true), "the wheel moved the selection during an edit");
    p.on_key(&key(KeyCode::Esc), &choices);
    assert!(!p.editing);
    assert_eq!(p.on_key(&key(KeyCode::Char('m')), &choices), PageAction::NoMachineValue);
    p.click(1, false);
    assert_eq!(p.on_key(&key(KeyCode::Char('m')), &choices), PageAction::Machine(Setting::Threads));
    assert_eq!(p.click(1, true), (true, PageAction::Edit(Setting::Threads)));
    assert!(p.wheel(true));
    assert_eq!(p.selected(), Setting::NoIndex);
    assert!(setting_choices(Setting::Step).is_empty());
}

#[test]
fn an_unknown_theme_is_refused_with_the_message_of_the_lookup() {
    match read_setting(Setting::Theme, " nope ", Some("no theme named \"nope\"")) {
        Err(m) => assert_eq!(m, "theme: no theme named \"nope\""),
        Ok(_) => panic!("an unknown theme was kept"),
    }
    // An empty name needs no lookup: the viewer takes its own theme.
    assert!(matches!(read_setting(Setting::Theme, "", Some("unused")), Ok(SettingValue::Theme(None))));
}

#[test]
fn numbers_read_as_the_standard_library_reads_them() {
    assert!(matches!(read_setting(Setting::Threads, "+4", None), Ok(SettingValue::Threads(Some(4)))));
    assert!(matches!(read_setting(Setting::Threads, "007", None), Ok(SettingValue::Threads(Some(7)))));
    assert!(read_setting(Setting::Threads, "-4", None).is_err());
    assert!(read_setting(Setting::Threads, "+", None).is_err());
    assert!(read_setting(Setting::Threads, "4x", None).is_err());
    assert!(read_setting(Setting::Threads, "99999999999999999999999", None).is_err());
    assert!(matches!(read_setting(Setting::SampleSize, "+7", None), Ok(SettingValue::SampleSize(Some(7)))));
    assert!(matches!(read_setting(Setting::MemoryLimit, "4294967295", None), Ok(SettingValue::MemoryLimit(Some(4294967295)))));
    assert!(read_setting(Setting::MemoryLimit, "4294967296", None).is_err());
}

#[test]
fn the_page_shows_each_value_and_its_default() {
    use_values();
}

fn use_values() {
    let f = SettingsFile {
        theme: Some("gruvbox".to_string()),
        threads: Some(4),
        memory_limit_gb: Some(8),
        sample_size: Some(-1),
        no_index: Some(true),
        panels: None,
        band: Some("compact".to_string()),
        step: None,
    };
    assert_eq!(setting_value(Setting::Theme, &f), "gruvbox");
    assert_eq!(setting_value(Setting::Threads, &f), "4");
    assert_eq!(setting_value(Setting::MemoryLimit, &f), "8 GB");
    assert_eq!(setting_value(Setting::SampleSize, &f), "-1");
    assert_eq!(setting_value(Setting::NoIndex, &f), "no");
    assert_eq!(setting_value(Setting::Panels, &f), "");
    assert_eq!(setting_value(Setting::Step, &f), "");
    assert_eq!(setting_default(Setting::Threads, 8, None), "8 (one for each core)");
    assert_eq!(setting_default(Setting::MemoryLimit, 8, Some(16)), "16 GB (half of this machine)");
    assert_eq!(setting_default(Setting::MemoryLimit, 8, None), "the rule of DuckDB");
    assert_eq!(setting_default(Setting::Step, 8, None), "10 rows or columns");
    assert_eq!(setting_default(Setting::Theme, 8, None), "peruse-dark");
}

#[test]
fn a_setting_for_the_next_file_says_so_after_the_commit() {
    match commit_message(Setting::SampleSize, None) {
        CommitNote::Info(m) => assert_eq!(m, "sample size: takes effect at the next file"),
        other => panic!("{other:?}"),
    }
    match commit_message(Setting::NoIndex, Some("disk full")) {
        CommitNote::Info(m) => assert_eq!(m, "index at open: takes effect at the next file (not kept: disk full)"),
        other => panic!("{other:?}"),
    }
}

#[test]
fn a_setting_of_now_says_nothing_unless_the_file_was_not_written() {
    assert!(matches!(commit_message(Setting::Threads, None), CommitNote::Quiet));
    match commit_message(Setting::Step, Some("read-only")) {
        CommitNote::Fault(m) => assert_eq!(m, "step (not kept: read-only)"),
        other => panic!("{other:?}"),
    }
}
