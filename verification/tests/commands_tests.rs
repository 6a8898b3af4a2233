use peruse_tui::commands::{binding, bindings, fuzzy_match, groups, resolve, Cmd};
use peruse_tui::keys::{KeyCode, KeyEvent, KeyModifiers};

fn ev(code: KeyCode, mods: KeyModifiers) -> KeyEvent {
    KeyEvent::new(code, mods)
}

#[test]
fn each_label_names_each_key_of_its_command() {
    let mut bad: Vec<String> = Vec::new();
    for b in bindings() {
        let named = b.label.split(" / ").count();
        if named != b.keys.len() {
            bad.push(format!(
                "{:?} binds {} keys and its label {:?} names {named}",
                b.cmd,
                b.keys.len(),
                b.label
            ));
        }
        if b.label.trim() != b.label {
            bad.push(format!("{:?} has a space at an end of its label {:?}", b.cmd, b.label));
        }
    }
    assert!(bad.is_empty(), "{}", bad.join("\n"));
}

#[test]
fn every_command_is_discoverable() {
    let groups = groups();
    for b in bindings() {
        assert!(!b.desc.is_empty(), "{:?} has no description", b.cmd);
        assert!(!b.label.is_empty(), "{:?} has no key label", b.cmd);
        assert!(groups.contains(&b.group), "{:?} is in unknown group {:?}", b.cmd, b.group);
        assert!(!b.keys.is_empty(), "{:?} has no keys", b.cmd);
    }
}

#[test]
fn fuzzy_matching_is_subsequence_based() {
    assert!(fuzzy_match("tp", "theme picker"));
    assert!(fuzzy_match("", "anything"));
    assert!(fuzzy_match("SORT", "sort by this column"));
    assert!(!fuzzy_match("zzz", "sort by this column"));
    assert!(!fuzzy_match("pt", "theme picker"), "order matters");
}

#[test]
fn no_two_commands_claim_the_same_chord() {
    let mut seen: Vec<(KeyCode, KeyModifiers, Cmd)> = Vec::new();
    for b in bindings() {
        for k in b.keys.iter() {
            if let Some((_, _, other)) = seen.iter().find(|(c, m, _)| *c == k.0 && *m == k.1) {
                panic!("{:?} and {:?} both bind {:?}", b.cmd, other, k);
            }
            seen.push((k.0, k.1, b.cmd));
        }
    }
}

#[test]
fn control_chords_are_distinct_from_plain_letters() {
    let n = KeyModifiers::none();
    let ctrl = KeyModifiers::control();
    assert_eq!(resolve(&ev(KeyCode::Char('f'), n)), Some(Cmd::FilterBuild));
    assert_eq!(resolve(&ev(KeyCode::Char('f'), ctrl)), Some(Cmd::PageDown));
    assert_eq!(resolve(&ev(KeyCode::Char('c'), ctrl)), Some(Cmd::Quit));
    assert_eq!(resolve(&ev(KeyCode::Char('c'), n)), None);
}

#[test]
fn home_and_end_go_to_the_ends_of_the_record() {
    let n = KeyModifiers::none();
    let ctrl = KeyModifiers::control();
    assert_eq!(resolve(&ev(KeyCode::Home, n)), Some(Cmd::ColFirst));
    assert_eq!(resolve(&ev(KeyCode::End, n)), Some(Cmd::ColLast));
    assert_eq!(resolve(&ev(KeyCode::Home, ctrl)), Some(Cmd::Origin));
    assert_eq!(resolve(&ev(KeyCode::End, ctrl)), Some(Cmd::LastCell));
}

#[test]
fn every_movement_works_on_a_keyboard_with_no_navigation_block() {
    let block = [KeyCode::Home, KeyCode::End, KeyCode::PageUp, KeyCode::PageDown];
    for cmd in [
        Cmd::PageDown,
        Cmd::PageUp,
        Cmd::HalfPageDown,
        Cmd::HalfPageUp,
        Cmd::StepDown,
        Cmd::StepUp,
        Cmd::StepLeft,
        Cmd::StepRight,
        Cmd::Top,
        Cmd::Bottom,
        Cmd::ColFirst,
        Cmd::ColLast,
        Cmd::Origin,
        Cmd::LastCell,
    ] {
        let b = binding(cmd).expect("no entry in the table");
        assert!(
            b.keys.iter().any(|(code, _)| !block.contains(code)),
            "{cmd:?} has no key outside the navigation block"
        );
    }
}

#[test]
fn the_ends_of_a_row_need_no_shift_key() {
    let n = KeyModifiers::none();
    assert_eq!(resolve(&ev(KeyCode::Char('a'), n)), Some(Cmd::ColFirst));
    assert_eq!(resolve(&ev(KeyCode::Char('0'), n)), Some(Cmd::ColFirst));
    assert_eq!(resolve(&ev(KeyCode::Char('z'), n)), Some(Cmd::ColLast));
    assert_eq!(resolve(&ev(KeyCode::Char('^'), n)), Some(Cmd::ColFirst));
    assert_eq!(resolve(&ev(KeyCode::Char('$'), n)), Some(Cmd::ColLast));
}

#[test]
fn one_key_goes_back_to_the_start_of_the_file() {
    let n = KeyModifiers::none();
    assert_eq!(resolve(&ev(KeyCode::Char('o'), n)), Some(Cmd::Origin));
    assert_eq!(resolve(&ev(KeyCode::Char('O'), n)), Some(Cmd::LastCell));
    assert_eq!(resolve(&ev(KeyCode::Char('O'), KeyModifiers::shift())), Some(Cmd::LastCell));
}

#[test]
fn the_palette_does_not_use_a_chord_that_an_editor_takes() {
    let n = KeyModifiers::none();
    let b = binding(Cmd::Palette).unwrap();
    assert!(
        !b.keys.contains(&(KeyCode::Char('p'), KeyModifiers::control())),
        "the palette must not use ^P"
    );
    assert_eq!(resolve(&ev(KeyCode::Char('p'), n)), Some(Cmd::Palette));
    assert_eq!(resolve(&ev(KeyCode::Char(':'), n)), Some(Cmd::Palette));
}

#[test]
fn the_commands_of_one_group_follow_each_other_in_the_table() {
    let mut seen: Vec<&str> = Vec::new();
    let mut group = "";
    for b in bindings() {
        if b.group == group {
            continue;
        }
        assert!(!seen.contains(&b.group), "the group {:?} comes back after {group:?}", b.group);
        seen.push(b.group);
        group = b.group;
    }
}

#[test]
fn plain_and_arrow_keys_resolve() {
    let n = KeyModifiers::none();
    assert_eq!(resolve(&ev(KeyCode::Char('j'), n)), Some(Cmd::RowDown));
    assert_eq!(resolve(&ev(KeyCode::Down, n)), Some(Cmd::RowDown));
    assert_eq!(resolve(&ev(KeyCode::Char('q'), n)), Some(Cmd::Quit));
    assert_eq!(resolve(&ev(KeyCode::Char('v'), n)), None);
}

#[test]
fn uppercase_bindings_match_with_or_without_the_shift_flag() {
    // Some terminals send the shift key with the capital letter, and some
    // terminals do not. The viewer must accept the two forms.
    let n = KeyModifiers::none();
    assert_eq!(resolve(&ev(KeyCode::Char('G'), n)), Some(Cmd::Bottom));
    assert_eq!(resolve(&ev(KeyCode::Char('G'), KeyModifiers::shift())), Some(Cmd::Bottom));
    assert_eq!(resolve(&ev(KeyCode::Char('g'), n)), Some(Cmd::Top));
}

#[test]
fn the_letter_d_cycles_the_detail_band() {
    // The band and the half page both live on the letter `d`. The chord ^D
    // moves the cursor, and the plain letter changes the band.
    assert_eq!(resolve(&ev(KeyCode::Char('d'), KeyModifiers::none())), Some(Cmd::CycleBand));
    assert_eq!(resolve(&ev(KeyCode::Char('d'), KeyModifiers::control())), Some(Cmd::HalfPageDown));
}

#[test]
fn the_entries_of_one_group_stand_together() {
    let bs = bindings();
    for i in 0..bs.len() {
        for k in i..bs.len() {
            if bs[i].group == bs[k].group {
                for j in i..=k {
                    assert_eq!(bs[j].group, bs[i].group);
                }
            }
        }
    }
}
