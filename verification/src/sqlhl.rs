//! A small program that finds the parts of a SQL statement, for the colors of
//! the prompt.
//!
//! This module is not a parser. It must be correct only about the start and
//! the end of a value, a comment, a number and a keyword. The user then sees a
//! quotation mark with no partner as soon as the user types it.

use vstd::prelude::*;

use crate::chars::{
    alphabetic, alphanumeric, ascii_alphanumeric, ascii_digit, chars_of, text_of_range,
    white_space,
};

verus! {

broadcast use vstd::string::group_string_axioms;

/// One kind of part of a SQL statement.
#[derive(Clone, Copy, Debug, PartialEq, Eq, Structural)]
pub enum Tok {
    /// A word of the SQL language, such as `SELECT`.
    Keyword,
    /// A value between single quotation marks.
    Str,
    /// A number.
    Num,
    /// A comment.
    Comment,
    /// A name, or an identifier between double quotation marks.
    Ident,
    /// A character such as a comma or a bracket.
    Punct,
    /// One space or more.
    Space,
}

/// The words of the SQL language that the prompt shows in the keyword color.
pub open spec fn keywords() -> Seq<Seq<char>> {
    seq![
        "SELECT"@, "FROM"@, "WHERE"@, "GROUP"@, "BY"@, "ORDER"@, "HAVING"@, "LIMIT"@,
        "OFFSET"@, "AS"@, "ON"@, "JOIN"@, "LEFT"@, "RIGHT"@, "INNER"@, "OUTER"@, "FULL"@,
        "CROSS"@, "USING"@, "AND"@, "OR"@, "NOT"@, "IN"@, "IS"@, "NULL"@, "LIKE"@, "ILIKE"@,
        "BETWEEN"@, "CASE"@, "WHEN"@, "THEN"@, "ELSE"@, "END"@, "DISTINCT"@, "UNION"@,
        "ALL"@, "EXCEPT"@, "INTERSECT"@, "WITH"@, "ASC"@, "DESC"@, "CAST"@, "TRY_CAST"@,
        "OVER"@, "PARTITION"@, "QUALIFY"@, "WINDOW"@, "EXISTS"@, "ANY"@, "SOME"@, "VALUES"@,
        "DESCRIBE"@, "SUMMARIZE"@, "EXPLAIN"@, "PIVOT"@, "UNPIVOT"@, "TRUE"@, "FALSE"@,
        "NULLS"@, "FIRST"@, "LAST"@, "ESCAPE"@, "SIMILAR"@,
    ]
}

/// The same words, for the code that runs.
fn keyword_list() -> (r: Vec<&'static str>)
    ensures
        r@.map_values(|k: &str| k@) == keywords(),
{
    let r = vec![
        "SELECT", "FROM", "WHERE", "GROUP", "BY", "ORDER", "HAVING", "LIMIT", "OFFSET", "AS",
        "ON", "JOIN", "LEFT", "RIGHT", "INNER", "OUTER", "FULL", "CROSS", "USING", "AND", "OR",
        "NOT", "IN", "IS", "NULL", "LIKE", "ILIKE", "BETWEEN", "CASE", "WHEN", "THEN", "ELSE",
        "END", "DISTINCT", "UNION", "ALL", "EXCEPT", "INTERSECT", "WITH", "ASC", "DESC", "CAST",
        "TRY_CAST", "OVER", "PARTITION", "QUALIFY", "WINDOW", "EXISTS", "ANY", "SOME", "VALUES",
        "DESCRIBE", "SUMMARIZE", "EXPLAIN", "PIVOT", "UNPIVOT", "TRUE", "FALSE", "NULLS",
        "FIRST", "LAST", "ESCAPE", "SIMILAR",
    ];
    assert(r@.map_values(|k: &str| k@) =~= keywords());
    r
}


/// The code of a character with an ASCII capital letter made small.
pub open spec fn ascii_fold(c: char) -> u32 {
    let u = c as u32;
    if 0x41 <= u <= 0x5A {
        (u + 0x20) as u32
    } else {
        u
    }
}

/// Gives `true` when two texts are equal with no regard to the case of the
/// ASCII letters, as `str::eq_ignore_ascii_case` says.
pub open spec fn same_ignoring_ascii_case(a: Seq<char>, b: Seq<char>) -> bool {
    a.len() == b.len() && forall|i: int| 0 <= i < a.len() ==> ascii_fold(a[i]) == ascii_fold(b[i])
}

/// Gives `true` when the word is one of the [`keywords`], with no regard to
/// the case of the letters.
pub open spec fn keyword(word: Seq<char>) -> bool {
    exists|k: int| 0 <= k < keywords().len() && same_ignoring_ascii_case(keywords()[k], word)
}

fn fold(c: char) -> (r: u32)
    ensures
        r == ascii_fold(c),
{
    let u = c as u32;
    if 0x41 <= u && u <= 0x5A {
        u + 0x20
    } else {
        u
    }
}

fn same_ci(a: &Vec<char>, b: &[char]) -> (r: bool)
    ensures
        r == same_ignoring_ascii_case(a@, b@),
{
    if a.len() != b.len() {
        return false;
    }
    let mut i: usize = 0;
    while i < a.len()
        invariant
            i <= a@.len(),
            a@.len() == b@.len(),
            forall|k: int| 0 <= k < i ==> ascii_fold(a@[k]) == ascii_fold(b@[k]),
        decreases a@.len() - i,
    {
        if fold(a[i]) != fold(b[i]) {
            return false;
        }
        i += 1;
    }
    true
}

/// Gives `true` when the word is a keyword. The test ignores the case of the
/// letters.
pub fn is_keyword(word: &[char]) -> (r: bool)
    ensures
        r == keyword(word@),
{
    let ks = keyword_list();
    let mut i: usize = 0;
    while i < ks.len()
        invariant
            i <= ks@.len(),
            ks@.map_values(|k: &str| k@) == keywords(),
            forall|k: int| 0 <= k < i ==> !same_ignoring_ascii_case(keywords()[k], word@),
        decreases ks@.len() - i,
    {
        let kc = chars_of(ks[i]);
        assert(kc@ == keywords()[i as int]);
        if same_ci(&kc, word) {
            return true;
        }
        i += 1;
    }
    false
}

/// The position after the comment that starts with `--` at `i`: the comment
/// runs to the line end, and the line end is not in it.
pub open spec fn line_comment_end(s: Seq<char>, i: int) -> int
    decreases s.len() - i,
{
    if i >= s.len() || s[i] == '\n' {
        if i >= s.len() { s.len() as int } else { i }
    } else {
        line_comment_end(s, i + 1)
    }
}

/// The position of the first `*/` at or after `i`, or the length of the text.
pub open spec fn block_close(s: Seq<char>, i: int) -> int
    decreases s.len() - i,
{
    if i >= s.len() {
        s.len() as int
    } else if s[i] == '*' && i + 1 < s.len() && s[i + 1] == '/' {
        i
    } else {
        block_close(s, i + 1)
    }
}

/// The position after the quotation mark that closes a value that started
/// before `i`. Two quotation marks in a row are one quotation mark of the
/// value. A value with no closing mark runs to the end of the text.
pub open spec fn quote_end(s: Seq<char>, i: int, q: char) -> int
    decreases s.len() - i,
{
    if i >= s.len() {
        s.len() as int
    } else if s[i] == q {
        if i + 1 < s.len() && s[i + 1] == q {
            quote_end(s, i + 2, q)
        } else {
            i + 1
        }
    } else {
        quote_end(s, i + 1, q)
    }
}

/// The position after the characters with the property `p`, from `i` on.
pub open spec fn run_end(s: Seq<char>, i: int, p: spec_fn(char) -> bool) -> int
    decreases s.len() - i,
{
    if i >= s.len() {
        s.len() as int
    } else if p(s[i]) {
        run_end(s, i + 1, p)
    } else {
        i
    }
}

/// A character that continues a number: an ASCII letter or digit, a full stop
/// or `_`. The letters take the exponent, as in `1.5e3`.
pub open spec fn number_char(c: char) -> bool {
    ascii_alphanumeric(c) || c == '.' || c == '_'
}

/// A character that continues a word: a letter, a number or `_`.
pub open spec fn word_char(c: char) -> bool {
    alphanumeric(c) || c == '_'
}

/// The part of the statement that starts at `i`: where it ends, and its
/// kind.
pub open spec fn token_at(s: Seq<char>, i: int) -> (int, Tok) {
    let c = s[i];
    if c == '-' && i + 1 < s.len() && s[i + 1] == '-' {
        (line_comment_end(s, i), Tok::Comment)
    } else if c == '/' && i + 1 < s.len() && s[i + 1] == '*' {
        let k = block_close(s, i + 2);
        (if k + 2 <= s.len() { k + 2 } else { s.len() as int }, Tok::Comment)
    } else if c == '\'' || c == '"' {
        (quote_end(s, i + 1, c), if c == '"' { Tok::Ident } else { Tok::Str })
    } else if ascii_digit(c) {
        (run_end(s, i, |c: char| number_char(c)), Tok::Num)
    } else if alphabetic(c) || c == '_' {
        // The first character is a letter or `_`, and a letter is also a
        // letter or a number, so the word continues after it.
        let e = run_end(s, i + 1, |c: char| word_char(c));
        (e, if keyword(s.subrange(i, e)) { Tok::Keyword } else { Tok::Ident })
    } else if white_space(c) {
        (run_end(s, i, |c: char| white_space(c)), Tok::Space)
    } else {
        (i + 1, Tok::Punct)
    }
}

/// Each end that a part can have lies after its start and inside the text.
pub proof fn lemma_ends(s: Seq<char>, i: int, q: char, p: spec_fn(char) -> bool)
    requires
        0 <= i <= s.len(),
    ensures
        i <= line_comment_end(s, i) <= s.len(),
        i <= block_close(s, i) <= s.len(),
        i <= quote_end(s, i, q) <= s.len(),
        i <= run_end(s, i, p) <= s.len(),
        i < s.len() && p(s[i]) ==> i < run_end(s, i, p),
    decreases s.len() - i,
{
    if i < s.len() {
        lemma_ends(s, i + 1, q, p);
        if s[i] == q && i + 1 < s.len() && s[i + 1] == q {
            lemma_ends(s, i + 2, q, p);
        }
    }
}

/// Each part holds one character at the least.
pub proof fn lemma_token_at(s: Seq<char>, i: int)
    requires
        0 <= i < s.len(),
    ensures
        i < token_at(s, i).0 <= s.len(),
{
    let c = s[i];
    lemma_ends(s, i, c, |c: char| number_char(c));
    lemma_ends(s, i + 1, c, |c: char| word_char(c));
    lemma_ends(s, i, c, |c: char| white_space(c));
    lemma_ends(s, i + 1, c, |c: char| white_space(c));
    if i + 2 <= s.len() {
        lemma_ends(s, i + 2, c, |c: char| white_space(c));
    }
}

/// The parts of the statement from `i` on.
pub open spec fn tokens_from(s: Seq<char>, i: int) -> Seq<(Seq<char>, Tok)>
    decreases s.len() - i,
{
    if i >= s.len() || i < 0 {
        Seq::empty()
    } else {
        proof {
            lemma_token_at(s, i);
        }
        let (e, t) = token_at(s, i);
        seq![(s.subrange(i, e), t)] + tokens_from(s, e)
    }
}

/// The texts of the parts, one after the other.
pub open spec fn joined(ts: Seq<(Seq<char>, Tok)>) -> Seq<char>
    decreases ts.len(),
{
    if ts.len() == 0 {
        Seq::empty()
    } else {
        ts[0].0 + joined(ts.drop_first())
    }
}

/// A join of the parts gives the text again.
pub proof fn lemma_joined(s: Seq<char>, i: int)
    requires
        0 <= i <= s.len(),
    ensures
        joined(tokens_from(s, i)) == s.skip(i),
    decreases s.len() - i,
{
    if i < s.len() {
        lemma_token_at(s, i);
        let (e, t) = token_at(s, i);
        lemma_joined(s, e);
        let ts = tokens_from(s, i);
        assert(ts[0].0 == s.subrange(i, e));
        assert(ts.drop_first() =~= tokens_from(s, e));
        assert(s.subrange(i, e) + s.skip(e) =~= s.skip(i));
    } else {
        assert(s.skip(i) =~= Seq::<char>::empty());
    }
}


/// A run ends at the end of the text or at a character that does not
/// continue it.
pub proof fn lemma_run_end_stops(s: Seq<char>, i: int, p: spec_fn(char) -> bool)
    requires
        0 <= i <= s.len(),
    ensures
        run_end(s, i, p) < s.len() ==> !p(s[run_end(s, i, p)]),
    decreases s.len() - i,
{
    if i < s.len() && p(s[i]) {
        lemma_run_end_stops(s, i + 1, p);
    }
}

/// A part of white space starts with white space and holds the whole run of
/// it.
pub proof fn lemma_token_kind(s: Seq<char>, i: int)
    requires
        0 <= i < s.len(),
    ensures
        token_at(s, i).1 == Tok::Space ==> white_space(s[i]),
        token_at(s, i).1 == Tok::Space ==> token_at(s, i).0 == run_end(s, i, |c: char| white_space(c)),
{
}

/// No part of a statement is empty, a part of white space starts with white
/// space, and two parts of white space never stand side by side: a run of
/// white space is one part.
#[verifier::spinoff_prover]
#[verifier::rlimit(60)]
pub proof fn lemma_tokens_shape(s: Seq<char>, i: int)
    requires
        0 <= i <= s.len(),
    ensures
        forall|k: int| 0 <= k < tokens_from(s, i).len() ==> (#[trigger] tokens_from(s, i)[k]).0.len() > 0,
        forall|k: int|
            0 <= k < tokens_from(s, i).len() - 1 ==> !((#[trigger] tokens_from(s, i)[k]).1 == Tok::Space
                && tokens_from(s, i)[k + 1].1 == Tok::Space),
        i < s.len() ==> (tokens_from(s, i).len() > 0 && (tokens_from(s, i)[0].1 == Tok::Space
            ==> white_space(s[i]))),
    decreases s.len() - i,
{
    if i < s.len() {
        lemma_token_at(s, i);
        let (e, t) = token_at(s, i);
        lemma_tokens_shape(s, e);
        let ts = tokens_from(s, i);
        let rest = tokens_from(s, e);
        assert(ts == seq![(s.subrange(i, e), t)] + rest);
        assert(ts.drop_first() =~= rest);
        lemma_token_kind(s, i);
        if e < s.len() {
            lemma_token_kind(s, e);
        }
        if t == Tok::Space {
            lemma_run_end_stops(s, i, |c: char| white_space(c));
        }
        assert forall|k: int| 0 <= k < ts.len() implies (#[trigger] ts[k]).0.len() > 0 by {
            if k > 0 {
                assert(ts[k] == rest[k - 1]);
            }
        }
        assert forall|k: int| 0 <= k < ts.len() - 1 implies !((#[trigger] ts[k]).1 == Tok::Space && ts[k
            + 1].1 == Tok::Space) by {
            assert(ts[k + 1] == rest[k]);
            if k > 0 {
                assert(ts[k] == rest[k - 1]);
            }
        }
    }
}

/// Each character of a run has the property of the run.
proof fn lemma_run_holds(s: Seq<char>, i: int, p: spec_fn(char) -> bool)
    requires
        0 <= i <= s.len(),
    ensures
        forall|j: int| i <= j < run_end(s, i, p) ==> p(#[trigger] s[j]),
    decreases s.len() - i,
{
    if i < s.len() && p(s[i]) {
        lemma_run_holds(s, i + 1, p);
    }
}

/// Whether a part is a word: a keyword, or a name that is not between double
/// quotation marks.
pub open spec fn word_part(part: (Seq<char>, Tok)) -> bool {
    part.1 == Tok::Keyword || (part.1 == Tok::Ident && part.0.len() > 0 && part.0[0] != '"')
}

/// A part that is a word starts with a letter or `_`, holds letters, digits
/// and `_` after it, and takes the whole run of them: the part after it does
/// not start with a letter, a digit or `_`. So a name such as `order_id` is
/// one part, and never a keyword followed by the rest of the name.
#[verifier::spinoff_prover]
#[verifier::rlimit(60)]
pub proof fn a_word_part_takes_the_whole_word(s: Seq<char>, i: int)
    requires
        0 <= i <= s.len(),
    ensures
        forall|k: int|
            0 <= k < tokens_from(s, i).len() && word_part(#[trigger] tokens_from(s, i)[k]) ==> {
                let w = tokens_from(s, i)[k].0;
                &&& w.len() > 0
                &&& (alphabetic(w[0]) || w[0] == '_')
                &&& forall|j: int| 1 <= j < w.len() ==> alphanumeric(#[trigger] w[j]) || w[j] == '_'
                &&& k + 1 < tokens_from(s, i).len() ==> !(alphanumeric(tokens_from(s, i)[k + 1].0[0])
                    || tokens_from(s, i)[k + 1].0[0] == '_')
            },
    decreases s.len() - i,
{
    if i < s.len() {
        lemma_token_at(s, i);
        let (e, t) = token_at(s, i);
        a_word_part_takes_the_whole_word(s, e);
        lemma_tokens_shape(s, e);
        let ts = tokens_from(s, i);
        let rest = tokens_from(s, e);
        assert(ts == seq![(s.subrange(i, e), t)] + rest);
        let c = s[i];
        let word = !(c == '-' && i + 1 < s.len() && s[i + 1] == '-') && !(c == '/' && i + 1 < s.len() && s[i + 1]
            == '*') && !(c == '\'' || c == '"') && !ascii_digit(c) && (alphabetic(c) || c == '_');
        if word {
            lemma_run_holds(s, i + 1, |c: char| word_char(c));
            lemma_run_end_stops(s, i + 1, |c: char| word_char(c));
            lemma_ends(s, i + 1, c, |c: char| word_char(c));
            if e < s.len() {
                lemma_token_at(s, e);
                assert(rest.len() > 0);
                assert(rest[0].0 == s.subrange(e, token_at(s, e).0));
                assert(rest[0].0[0] == s[e]);
            }
        }
        assert forall|k: int|
            0 <= k < ts.len() && word_part(#[trigger] ts[k]) implies {
                let w = ts[k].0;
                &&& w.len() > 0
                &&& (alphabetic(w[0]) || w[0] == '_')
                &&& forall|j: int| 1 <= j < w.len() ==> alphanumeric(#[trigger] w[j]) || w[j] == '_'
                &&& k + 1 < ts.len() ==> !(alphanumeric(ts[k + 1].0[0]) || ts[k + 1].0[0] == '_')
            } by {
            if k > 0 {
                assert(ts[k] == rest[k - 1]);
                if k + 1 < ts.len() {
                    assert(ts[k + 1] == rest[k]);
                }
            } else {
                assert(ts[0] == (s.subrange(i, e), t));
                assert(word);
                let w = ts[0].0;
                assert(w[0] == s[i]);
                assert forall|j: int| 1 <= j < w.len() implies alphanumeric(#[trigger] w[j]) || w[j] == '_' by {
                    assert(w[j] == s[i + j]);
                    assert(word_char(s[i + j]));
                }
                if 1 < ts.len() {
                    assert(ts[1] == rest[0]);
                }
            }
        }
    }
}

fn comment_end(cs: &Vec<char>, i: usize) -> (r: usize)
    requires
        i <= cs@.len(),
    ensures
        r == line_comment_end(cs@, i as int),
{
    let mut k = i;
    while k < cs.len() && cs[k] != '\n'
        invariant
            i <= k <= cs@.len(),
            line_comment_end(cs@, i as int) == line_comment_end(cs@, k as int),
        decreases cs@.len() - k,
    {
        k += 1;
    }
    k
}

fn close_of_block(cs: &Vec<char>, i: usize) -> (r: usize)
    requires
        i <= cs@.len(),
    ensures
        r == block_close(cs@, i as int),
{
    let mut k = i;
    while k < cs.len() && !(cs[k] == '*' && k + 1 < cs.len() && cs[k + 1] == '/')
        invariant
            i <= k <= cs@.len(),
            block_close(cs@, i as int) == block_close(cs@, k as int),
        decreases cs@.len() - k,
    {
        k += 1;
    }
    k
}

fn end_of_quote(cs: &Vec<char>, i: usize, q: char) -> (r: usize)
    requires
        i <= cs@.len(),
    ensures
        r == quote_end(cs@, i as int, q),
{
    let mut k = i;
    while k < cs.len()
        invariant
            i <= k <= cs@.len(),
            quote_end(cs@, i as int, q) == quote_end(cs@, k as int, q),
        decreases cs@.len() - k,
    {
        if cs[k] == q {
            // Two quotation marks are one quotation mark in the value. They
            // do not end the value.
            if k + 1 < cs.len() && cs[k + 1] == q {
                k += 2;
                continue;
            }
            return k + 1;
        }
        k += 1;
    }
    k
}

fn end_of_number(cs: &Vec<char>, i: usize) -> (r: usize)
    requires
        i <= cs@.len(),
    ensures
        r == run_end(cs@, i as int, |c: char| number_char(c)),
{
    let mut k = i;
    while k < cs.len() && (crate::chars::is_ascii_alphanumeric(cs[k]) || cs[k] == '.' || cs[k]
        == '_')
        invariant
            i <= k <= cs@.len(),
            run_end(cs@, i as int, |c: char| number_char(c)) == run_end(
                cs@,
                k as int,
                |c: char| number_char(c),
            ),
        decreases cs@.len() - k,
    {
        k += 1;
    }
    k
}

fn end_of_word(cs: &Vec<char>, i: usize) -> (r: usize)
    requires
        i <= cs@.len(),
    ensures
        r == run_end(cs@, i as int, |c: char| word_char(c)),
{
    let mut k = i;
    while k < cs.len() && (crate::chars::is_alphanumeric(cs[k]) || cs[k] == '_')
        invariant
            i <= k <= cs@.len(),
            run_end(cs@, i as int, |c: char| word_char(c)) == run_end(
                cs@,
                k as int,
                |c: char| word_char(c),
            ),
        decreases cs@.len() - k,
    {
        k += 1;
    }
    k
}

fn end_of_space(cs: &Vec<char>, i: usize) -> (r: usize)
    requires
        i <= cs@.len(),
    ensures
        r == run_end(cs@, i as int, |c: char| white_space(c)),
{
    let mut k = i;
    while k < cs.len() && crate::chars::is_whitespace(cs[k])
        invariant
            i <= k <= cs@.len(),
            run_end(cs@, i as int, |c: char| white_space(c)) == run_end(
                cs@,
                k as int,
                |c: char| white_space(c),
            ),
        decreases cs@.len() - k,
    {
        k += 1;
    }
    k
}

/// The texts of a list of parts, as values.
pub open spec fn parts_view(r: Seq<(String, Tok)>) -> Seq<(Seq<char>, Tok)> {
    r.map_values(|p: (String, Tok)| (p.0@, p.1))
}

/// Splits a statement into parts, and gives the kind of each part.
///
/// The parts follow each other, and each part gets one color. A join of the
/// parts always gives the input text again, no part is empty, and two parts
/// of white space never stand side by side.
pub fn tokens(sql: &str) -> (r: Vec<(String, Tok)>)
    ensures
        parts_view(r@) == tokens_from(sql@, 0),
        joined(parts_view(r@)) == sql@,
        forall|k: int| 0 <= k < r@.len() ==> (#[trigger] r@[k]).0@.len() > 0,
        forall|k: int| 0 <= k < r@.len() - 1 ==> !((#[trigger] r@[k]).1 == Tok::Space && r@[k + 1].1 == Tok::Space),
        forall|k: int|
            0 <= k < r@.len() && word_part(#[trigger] parts_view(r@)[k]) ==> {
                let w = parts_view(r@)[k].0;
                &&& (alphabetic(w[0]) || w[0] == '_')
                &&& forall|j: int| 1 <= j < w.len() ==> alphanumeric(#[trigger] w[j]) || w[j] == '_'
                &&& k + 1 < r@.len() ==> !(alphanumeric(parts_view(r@)[k + 1].0[0]) || parts_view(r@)[k + 1].0[0]
                    == '_')
            },
{
    let cs = chars_of(sql);
    let mut out: Vec<(String, Tok)> = Vec::new();
    let mut i: usize = 0;
    assert(parts_view(out@) =~= Seq::<(Seq<char>, Tok)>::empty());
    while i < cs.len()
        invariant
            i <= cs@.len(),
            cs@ == sql@,
            tokens_from(sql@, 0) == parts_view(out@) + tokens_from(sql@, i as int),
        decreases cs@.len() - i,
    {
        let c = cs[i];
        let start = i;
        proof {
            lemma_token_at(cs@, i as int);
        }
        let (e, tok) = if c == '-' && i + 1 < cs.len() && cs[i + 1] == '-' {
            (comment_end(&cs, i), Tok::Comment)
        } else if c == '/' && i + 1 < cs.len() && cs[i + 1] == '*' {
            let k = close_of_block(&cs, i + 2);
            proof {
                lemma_ends(cs@, i + 2, c, |c: char| white_space(c));
            }
            (if cs.len() >= 2 && k <= cs.len() - 2 { k + 2 } else { cs.len() }, Tok::Comment)
        } else if c == '\'' || c == '"' {
            (end_of_quote(&cs, i + 1, c), if c == '"' { Tok::Ident } else { Tok::Str })
        } else if crate::chars::is_ascii_digit(c) {
            (end_of_number(&cs, i), Tok::Num)
        } else if crate::chars::is_alphabetic(c) || c == '_' {
            let e = end_of_word(&cs, i + 1);
            proof {
                lemma_ends(cs@, i + 1, c, |c: char| word_char(c));
            }
            let word = crate::chars::slice_of(&cs, i, e);
            (e, if is_keyword(word.as_slice()) { Tok::Keyword } else { Tok::Ident })
        } else if crate::chars::is_whitespace(c) {
            (end_of_space(&cs, i), Tok::Space)
        } else {
            (i + 1, Tok::Punct)
        };
        assert((e as int, tok) == token_at(cs@, start as int));
        let text = text_of_range(cs.as_slice(), start, e);
        let ghost before = out@;
        let ghost tv = text@;
        out.push((text, tok));
        proof {
            let ts = tokens_from(sql@, start as int);
            assert(ts == seq![(sql@.subrange(start as int, e as int), tok)] + tokens_from(sql@, e as int));
            assert(parts_view(out@) =~= parts_view(before).push((tv, tok)));
            assert(parts_view(before) + ts =~= parts_view(out@) + tokens_from(sql@, e as int));
        }
        i = e;
    }
    proof {
        lemma_joined(sql@, 0);
        assert(sql@.skip(0) =~= sql@);
        assert(parts_view(out@) + tokens_from(sql@, i as int) =~= parts_view(out@));
        lemma_tokens_shape(sql@, 0);
        a_word_part_takes_the_whole_word(sql@, 0);
        assert forall|k: int| 0 <= k < out@.len() implies (#[trigger] out@[k]).0@.len() > 0 by {
            assert(parts_view(out@)[k] == tokens_from(sql@, 0)[k]);
        }
        assert forall|k: int| 0 <= k < out@.len() - 1 implies !((#[trigger] out@[k]).1 == Tok::Space
            && out@[k + 1].1 == Tok::Space) by {
            assert(parts_view(out@)[k] == tokens_from(sql@, 0)[k]);
            assert(parts_view(out@)[k + 1] == tokens_from(sql@, 0)[k + 1]);
        }
    }
    out
}

} // verus!
