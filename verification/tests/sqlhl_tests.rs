use peruse_tui::sqlhl::{is_keyword, tokens, Tok};

fn kinds(sql: &str) -> Vec<Tok> {
    tokens(sql).into_iter().map(|(_, t)| t).collect()
}

#[test]
fn segments_always_reconstruct_the_input() {
    for sql in [
        "select * from t where a = 'x' -- note",
        "",
        "  ",
        "/* unterminated",
        "'unterminated",
        "SELECT \"weird col\", 1.5e3 FROM t",
        "naïve",
    ] {
        let joined: String = tokens(sql).into_iter().map(|(s, _)| s).collect();
        assert_eq!(joined, sql, "round trip failed for {sql:?}");
    }
}

#[test]
fn keywords_are_case_insensitive_but_identifiers_are_not_keywords() {
    assert_eq!(kinds("select")[0], Tok::Keyword);
    assert_eq!(kinds("SELECT")[0], Tok::Keyword);
    assert_eq!(kinds("selected")[0], Tok::Ident, "prefix is not a keyword");
    assert_eq!(kinds("amount")[0], Tok::Ident);
}

#[test]
fn strings_and_quoted_identifiers_are_distinguished() {
    assert_eq!(kinds("'text'")[0], Tok::Str);
    assert_eq!(kinds("\"column\"")[0], Tok::Ident);
}

#[test]
fn doubled_quotes_do_not_end_a_literal() {
    let t = tokens("'o''brien' x");
    assert_eq!(t[0].0, "'o''brien'");
    assert_eq!(t[0].1, Tok::Str);
}

#[test]
fn comments_run_to_end_of_line_only() {
    let t = tokens("a -- c\nb");
    assert_eq!(t[2].1, Tok::Comment);
    assert_eq!(t[2].0, "-- c");
    assert_eq!(t.last().unwrap().0, "b");
}

#[test]
fn numbers_absorb_decimals_and_exponents() {
    let t = tokens("1.5e3");
    assert_eq!(t.len(), 1);
    assert_eq!(t[0].1, Tok::Num);
}

#[test]
fn a_block_comment_and_white_space_are_their_own_parts() {
    let t = tokens("/* c */ x");
    assert_eq!(t[0], ("/* c */".to_string(), Tok::Comment));
    assert_eq!(t[1], (" ".to_string(), Tok::Space));
    assert_eq!(t[2], ("x".to_string(), Tok::Ident));
    assert_eq!(kinds("a,b")[1], Tok::Punct);
}

#[test]
fn a_word_is_a_keyword_in_any_case() {
    let w: Vec<char> = "FrOm".chars().collect();
    assert!(is_keyword(&w));
    let w: Vec<char> = "fromage".chars().collect();
    assert!(!is_keyword(&w));
}

#[test]
fn no_part_is_empty_and_a_run_of_spaces_is_one_part() {
    let t = tokens("SELECT  a ,\t\n b -- x\n  FROM t");
    assert!(t.iter().all(|(p, _)| !p.is_empty()));
    for w in t.windows(2) {
        assert!(!(w[0].1 == Tok::Space && w[1].1 == Tok::Space));
    }
    let joined: String = t.iter().map(|(p, _)| p.as_str()).collect();
    assert_eq!(joined, "SELECT  a ,\t\n b -- x\n  FROM t");
}
