//! The text functions that know the width of a character on the screen.
//!
//! Each text that the grid draws comes through this module, for two reasons:
//!
//! * A cell can hold a control character. Such a character can break the
//!   layout of the screen.
//! * A Chinese, Japanese or Korean character uses two screen columns, and an
//!   emoji does the same. The number of bytes is therefore never the correct
//!   measure of a width.

use vstd::prelude::*;

use crate::chars::{
    byte_len, char_bytes, char_columns, chars_of, columns, control, lemma_byte_len_push,
    lemma_byte_len_take, lemma_sum_columns_push, lower_char, lowercase_of, push_char,
    sum_columns, text_bytes, text_columns, text_of, text_of_range, text_width,
};

verus! {

/// The side of a cell that a value keeps.
#[derive(Clone, Copy, Debug, PartialEq, Eq, Structural)]
pub enum Align {
    /// The value starts at the left edge, as text does.
    Left,
    /// The value ends at the right edge, as a number does.
    Right,
}

/// Gives the width of a text on the screen, in screen columns.
pub fn width(s: &str) -> (r: usize)
    ensures
        r == text_width(s@),
        crate::chars::printable_ascii(s@) ==> r == s@.len(),
{
    text_columns(s)
}

/// The character that stands for a character that cannot be drawn on one
/// row: a symbol for a line end, a return and a tab, and a middle dot for
/// each other control character.
pub open spec fn visible(c: char) -> char {
    if c == '\n' {
        '␊'
    } else if c == '\r' {
        '␍'
    } else if c == '\t' {
        '␉'
    } else if control(c) {
        '·'
    } else {
        c
    }
}

/// Makes a value safe to draw on one row.
///
/// The function replaces a line end and a tab with the Unicode character for
/// that control character. It does not remove them. A value with more than one
/// line is therefore visible as such a value. Without this rule, the value
/// looks like one short text.
pub fn sanitize(s: &str) -> (r: String)
    ensures
        r@ == s@.map_values(|c: char| visible(c)),
{
    let cs = chars_of(s);
    let mut out = String::new();
    let mut i: usize = 0;
    while i < cs.len()
        invariant
            i <= cs@.len(),
            cs@ == s@,
            out@ == s@.take(i as int).map_values(|c: char| visible(c)),
        decreases cs@.len() - i,
    {
        let c = cs[i];
        let v = if c == '\n' {
            '␊'
        } else if c == '\r' {
            '␍'
        } else if c == '\t' {
            '␉'
        } else if crate::chars::is_control(c) {
            '·'
        } else {
            c
        };
        push_char(&mut out, v);
        i += 1;
        assert(out@ =~= s@.take(i as int).map_values(|c: char| visible(c)));
    }
    assert(s@.take(i as int) =~= s@);
    out
}

/// The number of characters at the start of a text whose columns fit in
/// `budget`, one character after the other.
pub open spec fn fitting(s: Seq<char>, budget: nat) -> nat
    decreases s.len(),
{
    if s.len() == 0 {
        0
    } else if columns(s[0]) > budget {
        0
    } else {
        1 + fitting(s.drop_first(), (budget - columns(s[0])) as nat)
    }
}

/// A text cut to `max` screen columns: the text itself when it fits, and
/// otherwise the characters that fit in one column less, and the character
/// `…` that shows the cut.
pub open spec fn truncated(s: Seq<char>, max: nat) -> Seq<char> {
    if max == 0 {
        Seq::empty()
    } else if text_width(s) <= max {
        s
    } else {
        s.take(fitting(s, (max - 1) as nat) as int).push('…')
    }
}

/// The characters that fit keep their columns inside the budget.
pub proof fn lemma_fitting(s: Seq<char>, budget: nat)
    ensures
        fitting(s, budget) <= s.len(),
        sum_columns(s.take(fitting(s, budget) as int)) <= budget,
        fitting(s, budget) < s.len() ==> sum_columns(s.take(fitting(s, budget) as int + 1)) > budget,
    decreases s.len(),
{
    if s.len() > 0 && columns(s[0]) <= budget {
        let rest = s.drop_first();
        let b2 = (budget - columns(s[0])) as nat;
        lemma_fitting(rest, b2);
        let k = fitting(rest, b2);
        assert(s.take(k as int + 1).drop_first() =~= rest.take(k as int));
        if k < rest.len() {
            assert(s.take(k as int + 2).drop_first() =~= rest.take(k as int + 1));
        }
    } else if s.len() > 0 {
        assert(s.take(1).drop_first() =~= Seq::<char>::empty());
        assert(sum_columns(s.take(1).drop_first()) == 0);
    }
    if fitting(s, budget) == 0 {
        assert(s.take(0) =~= Seq::<char>::empty());
    }
}

/// A text that is too wide for `max` screen columns becomes a start of the
/// text and the character `…`: the characters of that start take no more than
/// `max - 1` columns, and the next character of the text would not fit.
pub proof fn a_cut_text_keeps_inside_the_limit(s: Seq<char>, max: nat)
    requires
        max > 0,
        text_width(s) > max,
    ensures
        truncated(s, max).last() == '…',
        truncated(s, max).drop_last().is_prefix_of(s),
        sum_columns(truncated(s, max).drop_last()) <= max - 1,
        truncated(s, max).len() <= s.len() ==> sum_columns(s.take(truncated(s, max).len() as int)) > max - 1,
{
    let k = fitting(s, (max - 1) as nat);
    lemma_fitting(s, (max - 1) as nat);
    assert(truncated(s, max).drop_last() =~= s.take(k as int));
}

/// Cuts a text to `max` screen columns. The character `…` shows the cut. A
/// text of printable ASCII characters takes one column for each character.
pub fn truncate(s: &str, max: usize) -> (r: String)
    ensures
        r@ == truncated(s@, max as nat),
        crate::chars::printable_ascii(s@) ==> r@ == (if max == 0 {
            Seq::empty()
        } else if s@.len() <= max {
            s@
        } else {
            s@.take(max - 1).push('…')
        }),
{
    if max == 0 {
        return String::new();
    }
    if width(s) <= max {
        return s.to_owned();
    }
    // Keep one screen column for the character that shows the cut.
    let budget = max - 1;
    let cs = chars_of(s);
    let mut out = String::new();
    let mut used: usize = 0;
    let mut i: usize = 0;
    let mut full = false;
    assert(s@.skip(0) =~= s@);
    while i < cs.len() && !full
        invariant
            i <= cs@.len(),
            cs@ == s@,
            used <= budget,
            out@ == s@.take(i as int),
            fitting(s@, budget as nat) == i + fitting(s@.skip(i as int), (budget - used) as nat),
            full ==> fitting(s@.skip(i as int), (budget - used) as nat) == 0,
            crate::chars::printable_ascii(s@) ==> used == i,
            crate::chars::printable_ascii(s@) && full ==> i == budget,
            crate::chars::printable_ascii(s@) ==> s@.len() > max,
        decreases cs@.len() - i + (if full { 0int } else { 1int }),
    {
        let w = match char_columns(cs[i]) {
            Some(w) => w,
            None => 0,
        };
        assert(s@.skip(i as int)[0] == cs@[i as int]);
        if w > budget - used {
            full = true;
        } else {
            push_char(&mut out, cs[i]);
            used += w;
            assert(s@.skip(i as int).drop_first() =~= s@.skip(i + 1));
            i += 1;
            assert(out@ =~= s@.take(i as int));
        }
    }
    assert(s@.skip(i as int).len() == 0 ==> fitting(s@.skip(i as int), (budget - used) as nat) == 0);
    push_char(&mut out, '…');
    out
}

/// The width of a text, counted one character after the other, that stops as
/// soon as it reaches `cap`.
pub open spec fn capped(s: Seq<char>, used: nat, cap: nat) -> nat
    decreases s.len(),
{
    if s.len() == 0 {
        used
    } else if used + columns(s[0]) >= cap {
        if used + columns(s[0]) <= usize::MAX { used + columns(s[0]) } else { usize::MAX as nat }
    } else {
        capped(s.drop_first(), used + columns(s[0]), cap)
    }
}

/// Gives the width of a text on the screen, and stops at `cap` screen
/// columns.
///
/// A caller that compares a width with a limit does not need the full width. A
/// cell can hold 4096 characters, and a comparison with a limit of 60 columns
/// must not walk each of them.
///
/// Below the limit the result is the sum of the columns of the characters. At
/// the limit it is known to have reached the limit, it is no more than that
/// sum, and it passes the limit by two columns at the most (three for a limit
/// of zero), because no character is wider than three columns. A comparison
/// of the result with the limit therefore gives the answer that a comparison
/// of the full width gives.
pub fn width_capped(s: &str, cap: usize) -> (r: usize)
    ensures
        r == capped(s@, 0, cap as nat),
        r <= sum_columns(s@),
        sum_columns(s@) < cap ==> r == sum_columns(s@),
        sum_columns(s@) >= cap ==> cap <= r <= (if cap == 0 { 3 } else { cap + 2 }),
        (r < cap) == (sum_columns(s@) < cap),
{
    let cs = chars_of(s);
    let mut used: usize = 0;
    let mut i: usize = 0;
    assert(s@.skip(0) =~= s@);
    assert(s@.take(0) =~= Seq::<char>::empty());
    while i < cs.len()
        invariant
            i <= cs@.len(),
            cs@ == s@,
            used == sum_columns(s@.take(i as int)),
            used < cap || i == 0,
            capped(s@, 0, cap as nat) == capped(s@.skip(i as int), used as nat, cap as nat),
            i > 0 ==> used < cap,
        decreases cs@.len() - i,
    {
        let w = match char_columns(cs[i]) {
            Some(w) => w,
            None => 0,
        };
        assert(s@.skip(i as int)[0] == cs@[i as int]);
        proof {
            lemma_sum_columns_push(s@.take(i as int), cs@[i as int]);
            assert(s@.take(i as int).push(cs@[i as int]) =~= s@.take(i + 1));
            crate::chars::lemma_sum_columns_append(s@.take(i + 1), s@.skip(i + 1));
            assert(s@ =~= s@.take(i + 1) + s@.skip(i + 1));
        }
        let total = used.saturating_add(w);
        if total >= cap {
            proof {
                crate::chars::lemma_sum_columns_append(s@.take(i + 1), s@.skip(i + 1));
            }
            return total;
        }
        used = total;
        assert(s@.skip(i as int).drop_first() =~= s@.skip(i + 1));
        i += 1;
    }
    assert(s@.take(i as int) =~= s@);
    assert(s@.skip(i as int) =~= Seq::<char>::empty());
    used
}


/// A text cut to `w` columns and then padded with spaces on the side that the
/// alignment leaves free, until its width is `w`.
pub open spec fn fitted(s: Seq<char>, w: nat, align: Align) -> Seq<char> {
    let t = truncated(s, w);
    let pad: nat = if text_width(t) < w { (w - text_width(t)) as nat } else { 0 };
    let spaces = Seq::new(pad, |i: int| ' ');
    match align {
        Align::Left => t + spaces,
        Align::Right => spaces + t,
    }
}

/// Cuts a text and then adds spaces, until the text has the width `w`.
pub fn fit(s: &str, w: usize, align: Align) -> (r: String)
    ensures
        r@ == fitted(s@, w as nat, align),
{
    let t = truncate(s, w);
    let pad = w.saturating_sub(width(t.as_str()));
    let ghost spaces = Seq::new(pad as nat, |i: int| ' ');
    let mut gap = String::new();
    let mut k: usize = 0;
    while k < pad
        invariant
            k <= pad,
            gap@ == Seq::new(k as nat, |i: int| ' '),
        decreases pad - k,
    {
        push_char(&mut gap, ' ');
        k += 1;
        assert(gap@ =~= Seq::new(k as nat, |i: int| ' '));
    }
    match align {
        Align::Left => {
            let mut out = t;
            let mut j: usize = 0;
            while j < pad
                invariant
                    j <= pad,
                    out@ == truncated(s@, w as nat) + Seq::new(j as nat, |i: int| ' '),
                decreases pad - j,
            {
                push_char(&mut out, ' ');
                j += 1;
                assert(out@ =~= truncated(s@, w as nat) + Seq::new(j as nat, |i: int| ' '));
            }
            out
        },
        Align::Right => {
            let tc = chars_of(t.as_str());
            let mut out = gap;
            let mut j: usize = 0;
            while j < tc.len()
                invariant
                    j <= tc@.len(),
                    tc@ == truncated(s@, w as nat),
                    out@ == spaces + tc@.take(j as int),
                    spaces == Seq::new(pad as nat, |i: int| ' '),
                decreases tc@.len() - j,
            {
                push_char(&mut out, tc[j]);
                j += 1;
                assert(out@ =~= spaces + tc@.take(j as int));
            }
            assert(tc@.take(j as int) =~= tc@);
            out
        },
    }
}

/// Compares the characters `lc` with the needle from the position `idx`, and
/// gives the position after them, or `None` at the first difference. The
/// characters after the end of the needle do not count.
pub open spec fn consume(lc: Seq<char>, needle: Seq<char>, idx: nat) -> Option<nat>
    decreases lc.len(),
{
    if lc.len() == 0 || idx >= needle.len() {
        Some(idx)
    } else if needle[idx as int] != lc[0] {
        None
    } else {
        consume(lc.drop_first(), needle, idx + 1)
    }
}

/// The number of characters of `h` whose small letters match the needle from
/// the position `idx` to its end, or `None` when they do not match.
pub open spec fn match_len(h: Seq<char>, needle: Seq<char>, idx: nat) -> Option<nat>
    decreases h.len(),
{
    if h.len() == 0 {
        None
    } else {
        match consume(lower_char(h[0]), needle, idx) {
            Option::None => None,
            Option::Some(j) => if j >= needle.len() {
                Some(1)
            } else {
                match match_len(h.drop_first(), needle, j) {
                    Option::Some(k) => Some(k + 1),
                    Option::None => None,
                }
            },
        }
    }
}

/// The first match of the needle in the text from the character `start` on,
/// as the first character and the character after the last one.
pub open spec fn first_match(hay: Seq<char>, needle: Seq<char>, start: nat) -> Option<(nat, nat)>
    decreases hay.len() - start,
{
    if start >= hay.len() {
        None
    } else {
        match match_len(hay.skip(start as int), needle, 0) {
            Option::Some(k) => Some((start, start + k)),
            Option::None => first_match(hay, needle, start + 1),
        }
    }
}

/// The first occurrence of `needle` in `hay`, with no regard to the case of
/// the letters, as the byte positions of its first character and of the
/// character after its last one.
pub open spec fn found(hay: Seq<char>, needle: Seq<char>) -> Option<(nat, nat)> {
    let low = crate::chars::lower_each(needle);
    if low.len() == 0 {
        None
    } else {
        match first_match(hay, low, 0) {
            Option::Some((a, b)) => Some(
                (byte_len(hay.take(a as int)), byte_len(hay.take(b as int))),
            ),
            Option::None => None,
        }
    }
}

/// A match covers one character at the least, and no more than the text.
pub proof fn lemma_match_len(h: Seq<char>, needle: Seq<char>, idx: nat)
    ensures
        match_len(h, needle, idx) matches Some(k) ==> 1 <= k <= h.len(),
    decreases h.len(),
{
    if h.len() > 0 {
        lemma_match_len(h.drop_first(), needle, idx + 0);
        if let Some(j) = consume(lower_char(h[0]), needle, idx) {
            lemma_match_len(h.drop_first(), needle, j);
        }
    }
}

/// A match from `start` lies inside the text.
pub proof fn lemma_first_match(hay: Seq<char>, needle: Seq<char>, start: nat)
    ensures
        first_match(hay, needle, start) matches Some((a, b)) ==> start <= a < b <= hay.len(),
    decreases hay.len() - start,
{
    if start < hay.len() {
        lemma_match_len(hay.skip(start as int), needle, 0);
        lemma_first_match(hay, needle, start + 1);
    }
}

/// A match from `start` on is a match, and no position between `start` and
/// it holds one; with no match, no position from `start` on holds one.
proof fn lemma_first_match_leftmost(hay: Seq<char>, needle: Seq<char>, start: nat)
    ensures
        first_match(hay, needle, start) matches Some((a, b)) ==> {
            &&& start <= a < b <= hay.len()
            &&& match_len(hay.skip(a as int), needle, 0) == Some((b - a) as nat)
            &&& forall|j: int| start <= j < a ==> (#[trigger] match_len(hay.skip(j), needle, 0)) is None
        },
        first_match(hay, needle, start) is None ==> forall|j: int|
            start <= j < hay.len() ==> (#[trigger] match_len(hay.skip(j), needle, 0)) is None,
    decreases hay.len() - start,
{
    lemma_first_match(hay, needle, start);
    if start < hay.len() {
        lemma_first_match_leftmost(hay, needle, start + 1);
    }
}

/// The search ignoring case gives the leftmost match: the small letters of
/// the needle match the text at the first character that it gives, and at
/// no character before it; and when it gives nothing, they match nowhere.
/// The positions that it gives are the byte positions of those characters.
pub proof fn the_search_gives_the_leftmost_match(hay: Seq<char>, needle: Seq<char>)
    ensures
        found(hay, needle) matches Some((x, y)) ==> exists|a: nat, b: nat| {
            &&& a < b <= hay.len()
            &&& x == byte_len(hay.take(a as int))
            &&& y == byte_len(hay.take(b as int))
            &&& match_len(hay.skip(a as int), crate::chars::lower_each(needle), 0) == Some((b - a) as nat)
            &&& forall|j: int| 0 <= j < a ==> (#[trigger] match_len(hay.skip(j), crate::chars::lower_each(needle), 0)) is None
        },
        found(hay, needle) is None && crate::chars::lower_each(needle).len() > 0 ==> forall|j: int|
            0 <= j < hay.len() ==> (#[trigger] match_len(hay.skip(j), crate::chars::lower_each(needle), 0)) is None,
{
    let low = crate::chars::lower_each(needle);
    lemma_first_match_leftmost(hay, low, 0);
    if low.len() > 0 {
        if let Some((a, b)) = first_match(hay, low, 0) {
            assert(found(hay, needle) == Some((byte_len(hay.take(a as int)), byte_len(hay.take(b as int)))));
        }
    }
}

/// Gives the small letters of a text, one character after the other.
pub(crate) fn lower_all(s: &str) -> (r: Vec<char>)
    ensures
        r@ == crate::chars::lower_each(s@),
{
    let cs = chars_of(s);
    let mut out: Vec<char> = Vec::new();
    let mut i: usize = 0;
    while i < cs.len()
        invariant
            i <= cs@.len(),
            cs@ == s@,
            out@ == crate::chars::lower_each(s@.take(i as int)),
        decreases cs@.len() - i,
    {
        let lc = lowercase_of(cs[i]);
        let mut k: usize = 0;
        while k < lc.len()
            invariant
                k <= lc@.len(),
                i < cs@.len(),
                cs@ == s@,
                out@ == crate::chars::lower_each(s@.take(i as int)) + lc@.take(k as int),
            decreases lc@.len() - k,
        {
            out.push(lc[k]);
            k += 1;
            assert(out@ =~= crate::chars::lower_each(s@.take(i as int)) + lc@.take(k as int));
        }
        proof {
            assert(lc@.take(k as int) =~= lc@);
            crate::chars::lemma_lower_each_append(s@.take(i as int), seq![cs@[i as int]]);
            assert(s@.take(i as int) + seq![cs@[i as int]] =~= s@.take(i + 1));
            assert(seq![cs@[i as int]].drop_first() =~= Seq::<char>::empty());
            assert(crate::chars::lower_each(Seq::<char>::empty()) =~= Seq::<char>::empty());
            assert(crate::chars::lower_each(seq![cs@[i as int]]) =~= lower_char(cs@[i as int]));
        }
        i += 1;
    }
    assert(s@.take(i as int) =~= s@);
    out
}

/// Finds the first occurrence of `needle` in `hay`. The search ignores the
/// case of the letters. The function gives the first byte and the byte after
/// the last one; both are at the limit of a character.
///
/// The search compares the characters of `hay` one at a time, and makes no
/// second text with small letters. A change to small letters can change the
/// number of characters: the Turkish capital letter I with a dot above becomes
/// two characters. The positions in such a second text would then be wrong.
pub fn find_ci(hay: &str, needle: &str) -> (r: Option<(usize, usize)>)
    ensures
        r matches Some((a, b)) ==> found(hay@, needle@) == Some((a as nat, b as nat)),
        r is None ==> found(hay@, needle@) is None,
        r matches Some((x, y)) ==> exists|a: nat, b: nat| {
            &&& a < b <= hay@.len()
            &&& x == byte_len(hay@.take(a as int))
            &&& y == byte_len(hay@.take(b as int))
            &&& match_len(hay@.skip(a as int), crate::chars::lower_each(needle@), 0) == Some((b - a) as nat)
            &&& forall|j: int| 0 <= j < a ==> (#[trigger] match_len(hay@.skip(j), crate::chars::lower_each(needle@), 0)) is None
        },
{
    proof {
        the_search_gives_the_leftmost_match(hay@, needle@);
    }
    let lower = lower_all(needle);
    if lower.len() == 0 {
        return None;
    }
    let hs = chars_of(hay);
    let total = text_bytes(hay);
    let mut start: usize = 0;
    let mut pos: usize = 0;
    while start < hs.len()
        invariant
            start <= hs@.len(),
            hs@ == hay@,
            lower@ == crate::chars::lower_each(needle@),
            lower@.len() > 0,
            total == byte_len(hay@),
            pos == byte_len(hay@.take(start as int)),
            first_match(hay@, lower@, 0) == first_match(hay@, lower@, start as nat),
        decreases hs@.len() - start,
    {
        match match_at(&hs, start, pos, &lower, total) {
            Some((k, end)) => {
                proof {
                    lemma_match_len(hay@.skip(start as int), lower@, 0);
                    if let Some(kk) = match_len(hay@.skip(start as int), lower@, 0) {
                        lemma_byte_len_take(hay@, start + kk);
                    }
                }
                proof {
                    the_search_gives_the_leftmost_match(hay@, needle@);
                }
                return Some((pos, end));
            },
            None => {},
        }
        proof {
            lemma_byte_len_push(hay@.take(start as int), hay@[start as int]);
            assert(hay@.take(start as int).push(hay@[start as int]) =~= hay@.take(start + 1));
            lemma_byte_len_take(hay@, start + 1);
        }
        pos += char_bytes(hs[start]);
        start += 1;
    }
    None
}

/// Compares the needle with the text at the character `start`, which is at
/// the byte `start_byte`. The comparison ignores the case of the letters. The
/// function gives the number of characters of the match and the byte after
/// its last byte.
fn match_at(hs: &Vec<char>, start: usize, start_byte: usize, needle: &Vec<char>, total: usize)
    -> (r: Option<(usize, usize)>)
    requires
        start < hs@.len(),
        start_byte == byte_len(hs@.take(start as int)),
        total == byte_len(hs@),
        needle@.len() > 0,
    ensures
        match_len(hs@.skip(start as int), needle@, 0) matches Some(k) ==> r == Some(
            (k as usize, byte_len(hs@.take(start + k)) as usize),
        ),
        match_len(hs@.skip(start as int), needle@, 0) is None ==> r is None,
{
    let mut idx: usize = 0;
    let mut end = start_byte;
    let mut j = start;
    while j < hs.len()
        invariant
            start <= j <= hs@.len(),
            idx < needle@.len(),
            end == byte_len(hs@.take(j as int)),
            total == byte_len(hs@),
            needle@.len() > 0,
            j == start ==> idx == 0,
            match_len(hs@.skip(start as int), needle@, 0) == (match match_len(
                hs@.skip(j as int),
                needle@,
                idx as nat,
            ) {
                Option::Some(k) => Option::Some(k + (j - start) as nat),
                Option::None => Option::None,
            }),
        decreases hs@.len() - j,
    {
        let hc = hs[j];
        let lc = lowercase_of(hc);
        let ghost rest = hs@.skip(j as int);
        assert(rest[0] == hc);
        let ghost idx0 = idx;
        assert(lc@.skip(0) =~= lc@);
        let mut m: usize = 0;
        let mut bad = false;
        while m < lc.len() && idx < needle.len() && !bad
            invariant
                m <= lc@.len(),
                idx <= needle@.len(),
                lc@ == lower_char(hc),
                !bad ==> consume(lc@, needle@, idx0 as nat) == consume(lc@.skip(m as int), needle@, idx as nat),
                bad ==> consume(lc@, needle@, idx0 as nat) is None,
            decreases lc@.len() - m + (if bad { 0int } else { 1int }),
        {
            if needle[idx] != lc[m] {
                bad = true;
            } else {
                assert(lc@.skip(m as int).drop_first() =~= lc@.skip(m + 1));
                idx += 1;
                m += 1;
            }
        }
        assert(!bad ==> consume(lc@, needle@, idx0 as nat) == Some(idx as nat));
        if bad {
            return None;
        }
        proof {
            lemma_byte_len_push(hs@.take(j as int), hc);
            assert(hs@.take(j as int).push(hc) =~= hs@.take(j + 1));
            lemma_byte_len_take(hs@, j + 1);
            assert(rest.drop_first() =~= hs@.skip(j + 1));
        }
        end += char_bytes(hc);
        j += 1;
        if idx >= needle.len() {
            return Some((j - start, end));
        }
    }
    None
}


/// The position after the first line end at or after `i`, or the length of
/// the text when no line end follows.
pub open spec fn line_end(s: Seq<char>, i: int) -> int
    decreases s.len() - i,
{
    if i >= s.len() {
        s.len() as int
    } else if s[i] == '\n' {
        i
    } else {
        line_end(s, i + 1)
    }
}

/// The end of a line lies between its start and the end of the text, and no
/// line end comes before it.
pub proof fn lemma_line_end(s: Seq<char>, i: int)
    requires
        0 <= i <= s.len(),
    ensures
        i <= line_end(s, i) <= s.len(),
        line_end(s, i) < s.len() ==> s[line_end(s, i)] == '\n',
        forall|k: int| i <= k < line_end(s, i) ==> s[k] != '\n',
    decreases s.len() - i,
{
    if i < s.len() && s[i] != '\n' {
        lemma_line_end(s, i + 1);
    }
}

/// The lines of a text, as `str::split` with a line end gives them: one line
/// more than the text has line ends.
pub open spec fn lines_of(s: Seq<char>) -> Seq<Seq<char>>
    decreases s.len(),
{
    let e = line_end(s, 0);
    if e >= s.len() {
        seq![s]
    } else {
        proof {
            lemma_line_end(s, 0);
        }
        seq![s.take(e)] + lines_of(s.skip(e + 1))
    }
}

/// A line without the returns at its end.
pub open spec fn trim_returns(l: Seq<char>) -> Seq<char>
    decreases l.len(),
{
    if l.len() > 0 && l.last() == '\r' {
        trim_returns(l.drop_last())
    } else {
        l
    }
}

/// The position after the first space at or after `i`, or the length of the
/// text when no space follows.
pub open spec fn word_end_at(s: Seq<char>, i: int) -> int
    decreases s.len() - i,
{
    if i >= s.len() {
        s.len() as int
    } else if s[i] == ' ' {
        i + 1
    } else {
        word_end_at(s, i + 1)
    }
}

/// The end of a word lies after its start and inside the text.
pub proof fn lemma_word_end_at(s: Seq<char>, i: int)
    requires
        0 <= i < s.len(),
    ensures
        i < word_end_at(s, i) <= s.len(),
    decreases s.len() - i,
{
    if s[i] != ' ' && i + 1 < s.len() {
        lemma_word_end_at(s, i + 1);
    } else if s[i] != ' ' {
        assert(word_end_at(s, i + 1) == s.len());
    }
}

/// The words of a line, as `str::split_inclusive` with a space gives them:
/// each word keeps the space after it.
pub open spec fn words_of(l: Seq<char>) -> Seq<Seq<char>>
    decreases l.len(),
{
    if l.len() == 0 {
        Seq::empty()
    } else {
        proof {
            lemma_word_end_at(l, 0);
        }
        let e = word_end_at(l, 0);
        seq![l.take(e)] + words_of(l.skip(e))
    }
}

/// The lines that the wrap has finished, the line that it fills, and the
/// columns of that line.
pub struct Wrap {
    pub done: Seq<Seq<char>>,
    pub cur: Seq<char>,
    pub used: nat,
}

/// Adds one character of a word that is longer than a line. A character that
/// does not fit starts a new line.
pub open spec fn wrap_char(st: Wrap, c: char, w: nat) -> Wrap {
    let st1 = if st.used + columns(c) > w {
        Wrap { done: st.done.push(st.cur), cur: Seq::empty(), used: 0 }
    } else {
        st
    };
    Wrap { cur: st1.cur.push(c), used: st1.used + columns(c), ..st1 }
}

/// Adds the characters of a word one at a time.
pub open spec fn wrap_chars(st: Wrap, cs: Seq<char>, w: nat) -> Wrap
    decreases cs.len(),
{
    if cs.len() == 0 {
        st
    } else {
        wrap_chars(wrap_char(st, cs[0], w), cs.drop_first(), w)
    }
}

/// Adds one word. A word that does not fit in the rest of the line starts a
/// new line, and a word longer than a line breaks in its middle.
pub open spec fn wrap_word(st: Wrap, word: Seq<char>, w: nat) -> Wrap {
    let ww = text_width(word) as nat;
    let st1 = if st.used + ww > w && st.cur.len() > 0 {
        Wrap { done: st.done.push(st.cur), cur: Seq::empty(), used: 0 }
    } else {
        st
    };
    if ww > w {
        wrap_chars(st1, word, w)
    } else {
        Wrap { cur: st1.cur + word, used: st1.used + ww, ..st1 }
    }
}

/// Adds the words one at a time.
pub open spec fn wrap_words(st: Wrap, ws: Seq<Seq<char>>, w: nat) -> Wrap
    decreases ws.len(),
{
    if ws.len() == 0 {
        st
    } else {
        wrap_words(wrap_word(st, ws[0], w), ws.drop_first(), w)
    }
}

/// The rows of one line of the text.
pub open spec fn wrap_line(raw: Seq<char>, w: nat) -> Seq<Seq<char>> {
    let line = trim_returns(raw);
    if line.len() == 0 {
        seq![Seq::empty()]
    } else {
        let st = wrap_words(Wrap { done: Seq::empty(), cur: Seq::empty(), used: 0 }, words_of(line), w);
        st.done.push(st.cur)
    }
}

/// The rows of each line from the `k`-th one on.
pub open spec fn wrap_lines(ls: Seq<Seq<char>>, w: nat) -> Seq<Seq<char>>
    decreases ls.len(),
{
    if ls.len() == 0 {
        Seq::empty()
    } else {
        wrap_line(ls[0], w) + wrap_lines(ls.drop_first(), w)
    }
}

/// The rows of a text broken into lines of `w` screen columns.
pub open spec fn wrapped(s: Seq<char>, w: nat) -> Seq<Seq<char>> {
    if w == 0 {
        Seq::empty()
    } else {
        wrap_lines(lines_of(s), w)
    }
}


/// The end of a line found from a later start is the same end.
pub proof fn lemma_line_end_skip(s: Seq<char>, i: int, j: int)
    requires
        0 <= i <= j <= s.len(),
    ensures
        line_end(s.skip(i), j - i) == line_end(s, j) - i,
    decreases s.len() - j,
{
    if j < s.len() && s[j] != '\n' {
        lemma_line_end_skip(s, i, j + 1);
    }
}

/// The end of a word found from a later start is the same end.
pub proof fn lemma_word_end_skip(s: Seq<char>, i: int, j: int)
    requires
        0 <= i <= j <= s.len(),
    ensures
        word_end_at(s.skip(i), j - i) == word_end_at(s, j) - i,
    decreases s.len() - j,
{
    if j < s.len() && s[j] != ' ' {
        lemma_word_end_skip(s, i, j + 1);
    }
}

/// The returns at the end of a line go, and the rest stays.
pub proof fn lemma_trim_returns(l: Seq<char>, k: int)
    requires
        0 <= k <= l.len(),
        forall|m: int| k <= m < l.len() ==> l[m] == '\r',
        k == 0 || l[k - 1] != '\r',
    ensures
        trim_returns(l) == l.take(k),
    decreases l.len(),
{
    if l.len() > k {
        assert(l.last() == '\r');
        lemma_trim_returns(l.drop_last(), k);
        assert(l.drop_last().take(k) =~= l.take(k));
    } else {
        assert(l.take(k) =~= l);
        if l.len() > 0 {
            assert(l.last() == l[k - 1]);
        }
    }
}

/// The wrap of a state with earlier rows is the wrap of the state alone, with
/// those rows in front.
pub proof fn lemma_wrap_chars_prefix(d: Seq<Seq<char>>, st: Wrap, cs: Seq<char>, w: nat)
    ensures
        wrap_chars(Wrap { done: d + st.done, ..st }, cs, w).done == d + wrap_chars(st, cs, w).done,
        wrap_chars(Wrap { done: d + st.done, ..st }, cs, w).cur == wrap_chars(st, cs, w).cur,
        wrap_chars(Wrap { done: d + st.done, ..st }, cs, w).used == wrap_chars(st, cs, w).used,
    decreases cs.len(),
{
    if cs.len() > 0 {
        let st2 = wrap_char(st, cs[0], w);
        let big = wrap_char(Wrap { done: d + st.done, ..st }, cs[0], w);
        assert(big.done =~= d + st2.done);
        assert(big == Wrap { done: d + st2.done, ..st2 });
        lemma_wrap_chars_prefix(d, st2, cs.drop_first(), w);
    }
}

/// The same rule for the words.
pub proof fn lemma_wrap_words_prefix(d: Seq<Seq<char>>, st: Wrap, ws: Seq<Seq<char>>, w: nat)
    ensures
        wrap_words(Wrap { done: d + st.done, ..st }, ws, w).done == d + wrap_words(st, ws, w).done,
        wrap_words(Wrap { done: d + st.done, ..st }, ws, w).cur == wrap_words(st, ws, w).cur,
        wrap_words(Wrap { done: d + st.done, ..st }, ws, w).used == wrap_words(st, ws, w).used,
    decreases ws.len(),
{
    if ws.len() > 0 {
        let word = ws[0];
        let ww = text_width(word) as nat;
        let st1 = if st.used + ww > w && st.cur.len() > 0 {
            Wrap { done: st.done.push(st.cur), cur: Seq::empty(), used: 0 }
        } else {
            st
        };
        let big = Wrap { done: d + st.done, ..st };
        let big1 = if big.used + ww > w && big.cur.len() > 0 {
            Wrap { done: big.done.push(big.cur), cur: Seq::empty(), used: 0 }
        } else {
            big
        };
        assert(big1.done =~= d + st1.done);
        assert(big1 == Wrap { done: d + st1.done, ..st1 });
        let st2 = wrap_word(st, word, w);
        if ww > w {
            lemma_wrap_chars_prefix(d, st1, word, w);
        }
        let big2 = wrap_word(big, word, w);
        assert(big2.done =~= d + st2.done);
        assert(big2 == Wrap { done: d + st2.done, ..st2 });
        lemma_wrap_words_prefix(d, st2, ws.drop_first(), w);
    }
}

/// Breaks a text into lines of `w` screen columns. The function breaks the
/// text at a space when it can.
///
/// The cell inspector uses this function. It is the one part of the viewer
/// that shows a long value in full. The rows lose no character of the text
/// and add none, but for the line ends and the returns in front of them, and
/// each row keeps inside `w` columns where no character is wider than that.
pub fn wrap(s: &str, w: usize) -> (r: Vec<String>)
    ensures
        r@.map_values(|l: String| l@) == wrapped(s@, w as nat),
        w > 0 ==> flat(r@.map_values(|l: String| l@)) == trimmed_lines(lines_of(s@)),
        narrow(s@, w as nat) && words_add_up(s@) ==> rows_fit(r@.map_values(|l: String| l@), w as nat),
{
    if w == 0 {
        let out: Vec<String> = Vec::new();
        assert(out@.map_values(|l: String| l@) =~= Seq::<Seq<char>>::empty());
        return out;
    }
    let cs = chars_of(s);
    let n = cs.len();
    let mut out: Vec<String> = Vec::new();
    let mut i: usize = 0;
    assert(s@.skip(0) =~= s@);
    assert(out@.map_values(|l: String| l@) =~= Seq::<Seq<char>>::empty());
    loop
        invariant
            i <= n,
            n == cs@.len(),
            cs@ == s@,
            w > 0,
            wrapped(s@, w as nat) == out@.map_values(|l: String| l@) + wrap_lines(
                lines_of(s@.skip(i as int)),
                w as nat,
            ),
        decreases n - i,
    {
        let ghost t = s@.skip(i as int);
        let ghost base = out@.map_values(|l: String| l@);
        // Find the end of the line.
        let mut e = i;
        while e < n && cs[e] != '\n'
            invariant
                i <= e <= n,
                n == cs@.len(),
                line_end(cs@, i as int) == line_end(cs@, e as int),
            decreases n - e,
        {
            e += 1;
        }
        proof {
            lemma_line_end_skip(cs@, i as int, i as int);
            assert(line_end(t, 0) == e - i);
        }
        // The returns at the end of the line do not count.
        let mut e2 = e;
        while e2 > i && cs[e2 - 1] == '\r'
            invariant
                i <= e2 <= e <= n,
                n == cs@.len(),
                forall|m: int| e2 <= m < e ==> cs@[m] == '\r',
            decreases e2,
        {
            e2 -= 1;
        }
        let ghost raw = cs@.subrange(i as int, e as int);
        let ghost line = cs@.subrange(i as int, e2 as int);
        proof {
            lemma_trim_returns(raw, e2 - i);
            assert(raw.take(e2 - i) =~= line);
        }
        if e2 == i {
            out.push(String::new());
            assert(out@.map_values(|l: String| l@) =~= base + wrap_line(raw, w as nat));
        } else {
            let mut cur: Vec<char> = Vec::new();
            let mut cur_w: usize = 0;
            let mut j: usize = i;
            assert(line.skip(0) =~= line);
            assert(Seq::<Seq<char>>::empty() + Seq::<Seq<char>>::empty() =~= Seq::<Seq<char>>::empty());
            proof {
                lemma_wrap_words_prefix(
                    base,
                    Wrap { done: Seq::empty(), cur: Seq::empty(), used: 0 },
                    words_of(line),
                    w as nat,
                );
                assert(base + Seq::<Seq<char>>::empty() =~= base);
            }
            while j < e2
                invariant
                    i <= j <= e2 <= e <= n,
                    n == cs@.len(),
                    w > 0,
                    line == cs@.subrange(i as int, e2 as int),
                    cur@.len() == 0 ==> cur_w == 0,
                    cur_w <= w || cur_w <= 3,
                    base.len() <= out@.len(),
                    out@.map_values(|l: String| l@).take(base.len() as int) == base,
                    wrap_words(
                        Wrap { done: base, cur: Seq::empty(), used: 0 },
                        words_of(line),
                        w as nat,
                    ) == wrap_words(
                        Wrap { done: out@.map_values(|l: String| l@), cur: cur@, used: cur_w as nat },
                        words_of(line.skip(j - i)),
                        w as nat,
                    ),
                decreases e2 - j,
            {
                // The word runs to the first space, with the space.
                let mut k = j;
                while k < e2 && cs[k] != ' '
                    invariant
                        j <= k <= e2 <= n,
                        n == cs@.len(),
                        i <= j,
                        line == cs@.subrange(i as int, e2 as int),
                        forall|q: int| j <= q < k ==> cs@[q] != ' ',
                        word_end_at(line, j - i) == word_end_at(line, k - i),
                    decreases e2 - k,
                {
                    assert(line[k - i] == cs@[k as int]);
                    k += 1;
                }
                let ghost k0 = k;
                if k < e2 {
                    k += 1;
                }
                let ghost rest = line.skip(j - i);
                proof {
                    if k0 < e2 {
                        assert(line[k0 - i] == cs@[k0 as int]);
                        assert(word_end_at(line, k0 - i) == k - i);
                    } else {
                        assert(word_end_at(line, k0 - i) == k - i);
                    }
                    lemma_word_end_skip(line, j - i, j - i);
                    lemma_word_end_at(line, j - i);
                    assert(rest.len() > 0);
                    assert(word_end_at(rest, 0) == k - j);
                    assert(rest.take(k - j) =~= cs@.subrange(j as int, k as int));
                    assert(rest.skip(k - j) =~= line.skip(k - i));
                    assert(words_of(rest) == seq![rest.take(k - j)] + words_of(rest.skip(k - j)));
                    let more = words_of(line.skip(k - i));
                    assert((seq![cs@.subrange(j as int, k as int)] + more)[0] == cs@.subrange(j as int, k as int));
                    assert((seq![cs@.subrange(j as int, k as int)] + more).drop_first() =~= more);
                }
                let word = text_of_range(cs.as_slice(), j, k);
                let ww = width(word.as_str());
                let ghost wd = cs@.subrange(j as int, k as int);
                let ghost st0 = Wrap { done: out@.map_values(|l: String| l@), cur: cur@, used: cur_w as nat };
                let ghost st1 = if st0.used + ww > w && st0.cur.len() > 0 {
                    Wrap { done: st0.done.push(st0.cur), cur: Seq::empty(), used: 0 }
                } else {
                    st0
                };
                if (ww > w || cur_w > w - ww) && cur.len() > 0 {
                    let row = text_of(cur.as_slice());
                    out.push(row);
                    cur = Vec::new();
                    cur_w = 0;
                }
                assert(out@.map_values(|l: String| l@) =~= st1.done);
                assert(cur@ =~= st1.cur);
                assert(out@.map_values(|l: String| l@).take(base.len() as int) =~= base);
                if ww > w {
                    let mut m = j;
                    assert(cs@.subrange(j as int, k as int) =~= wd);
                    while m < k
                        invariant
                            j <= m <= k <= n,
                            n == cs@.len(),
                            w > 0,
                            cur@.len() == 0 ==> cur_w == 0,
                            cur_w <= w || cur_w <= 3,
                            base.len() <= out@.len(),
                            out@.map_values(|l: String| l@).take(base.len() as int) == base,
                            wrap_chars(
                                Wrap {
                                    done: out@.map_values(|l: String| l@),
                                    cur: cur@,
                                    used: cur_w as nat,
                                },
                                cs@.subrange(m as int, k as int),
                                w as nat,
                            ) == wrap_chars(st1, wd, w as nat),
                        decreases k - m,
                    {
                        let c = cs[m];
                        let cw = match char_columns(c) {
                            Some(x) => x,
                            None => 0,
                        };
                        let ghost sa = Wrap {
                            done: out@.map_values(|l: String| l@),
                            cur: cur@,
                            used: cur_w as nat,
                        };
                        assert(cs@.subrange(m as int, k as int)[0] == c);
                        assert(cs@.subrange(m as int, k as int).drop_first() =~= cs@.subrange(
                            m + 1,
                            k as int,
                        ));
                        assert(cw == columns(c));
                        if cw > w || cur_w > w - cw {
                            let row = text_of(cur.as_slice());
                            out.push(row);
                            cur = Vec::new();
                            cur_w = 0;
                        }
                        cur.push(c);
                        cur_w += cw;
                        m += 1;
                        assert(out@.map_values(|l: String| l@) =~= wrap_char(sa, c, w as nat).done);
                        assert(cur@ =~= wrap_char(sa, c, w as nat).cur);
                        assert(out@.map_values(|l: String| l@).take(base.len() as int) =~= base);
                    }
                    assert(cs@.subrange(k as int, k as int) =~= Seq::<char>::empty());
                } else {
                    let mut m = j;
                    let ghost cur0 = cur@;
                    while m < k
                        invariant
                            j <= m <= k <= n,
                            n == cs@.len(),
                            cur@ == cur0 + cs@.subrange(j as int, m as int),
                        decreases k - m,
                    {
                        cur.push(cs[m]);
                        m += 1;
                        assert(cur@ =~= cur0 + cs@.subrange(j as int, m as int));
                    }
                    cur_w = cur_w + ww;
                    assert(cur@ =~= st1.cur + wd);
                }
                j = k;
            }
            proof {
                assert(line.skip(j - i) =~= Seq::<char>::empty());
                assert(words_of(Seq::<char>::empty()) == Seq::<Seq<char>>::empty());
                assert(base + Seq::<Seq<char>>::empty() =~= base);
                lemma_wrap_words_prefix(
                    base,
                    Wrap { done: Seq::empty(), cur: Seq::empty(), used: 0 },
                    words_of(line),
                    w as nat,
                );
            }
            let ghost st = wrap_words(Wrap { done: Seq::empty(), cur: Seq::empty(), used: 0 }, words_of(line), w as nat);
            let ghost state = Wrap { done: out@.map_values(|l: String| l@), cur: cur@, used: cur_w as nat };
            proof {
                assert(wrap_words(state, Seq::<Seq<char>>::empty(), w as nat) == state);
                assert(wrap_words(Wrap { done: base, cur: Seq::empty(), used: 0 }, words_of(line), w as nat) == state);
                assert(Wrap { done: base + Seq::<Seq<char>>::empty(), cur: Seq::<char>::empty(), used: 0nat } == Wrap { done: base, cur: Seq::<char>::empty(), used: 0nat });
                assert(state.done == base + st.done);
                assert(state.cur == st.cur);
            }
            let row = text_of(cur.as_slice());
            out.push(row);
            proof {
                assert(out@.map_values(|l: String| l@) =~= state.done.push(state.cur));
                assert(out@.map_values(|l: String| l@) =~= base + st.done.push(st.cur));
            }
        }
        proof {
            let ls = lines_of(t);
            lemma_line_end(t, 0);
            if e < n {
                assert(t.take(e - i) =~= raw);
                assert(t.skip(e - i + 1) =~= s@.skip(e + 1));
                assert(ls == seq![raw] + lines_of(s@.skip(e + 1)));
            } else {
                assert(t =~= raw);
                assert(ls == seq![raw]);
            }
            assert(ls[0] == raw);
            assert(wrap_lines(ls, w as nat) == wrap_line(raw, w as nat) + wrap_lines(ls.drop_first(), w as nat));
        }
        if e >= n {
            proof {
                assert(lines_of(t).drop_first() =~= Seq::<Seq<char>>::empty());
            }
            assert(out@.map_values(|l: String| l@) =~= wrapped(s@, w as nat));
            proof {
                a_wrapped_text_keeps_its_characters(s@, w as nat);
                if narrow(s@, w as nat) && words_add_up(s@) {
                    a_wrapped_row_fits_its_width(s@, w as nat);
                }
            }
            return out;
        }
        proof {
            assert(lines_of(t).drop_first() =~= lines_of(s@.skip(e + 1)));
        }
        i = e + 1;
    }
}

} // verus!

verus! {

/// The characters of a list of rows, one row after the other.
pub open spec fn flat(rows: Seq<Seq<char>>) -> Seq<char>
    decreases rows.len(),
{
    if rows.len() == 0 {
        Seq::empty()
    } else {
        flat(rows.drop_last()) + rows.last()
    }
}

/// The characters of two lists of rows, one list after the other.
pub proof fn lemma_flat_append(a: Seq<Seq<char>>, b: Seq<Seq<char>>)
    ensures
        flat(a + b) == flat(a) + flat(b),
    decreases b.len(),
{
    if b.len() == 0 {
        assert(a + b =~= a);
        assert(flat(a) + flat(b) =~= flat(a));
    } else {
        lemma_flat_append(a, b.drop_last());
        assert((a + b).drop_last() =~= a + b.drop_last());
        assert((a + b).last() == b.last());
        assert(flat(a) + flat(b) =~= flat(a) + flat(b.drop_last()) + b.last());
    }
}

/// One row holds its own characters.
pub proof fn lemma_flat_one(x: Seq<char>)
    ensures
        flat(seq![x]) == x,
{
    let d = seq![x];
    assert(d.drop_last() =~= Seq::<Seq<char>>::empty());
    assert(flat(d.drop_last()) == Seq::<char>::empty());
    assert(flat(d) == flat(d.drop_last()) + d.last());
    assert(Seq::<char>::empty() + x =~= x);
}

/// The row added at the end comes after the characters of the other rows.
pub proof fn lemma_flat_push(d: Seq<Seq<char>>, x: Seq<char>)
    ensures
        flat(d.push(x)) == flat(d) + x,
{
    assert(d.push(x).drop_last() =~= d);
}

/// The words of a line hold the characters of the line, in their order.
pub proof fn lemma_words_join(l: Seq<char>)
    ensures
        flat(words_of(l)) == l,
    decreases l.len(),
{
    if l.len() > 0 {
        lemma_word_end_at(l, 0);
        let e = word_end_at(l, 0);
        lemma_words_join(l.skip(e));
        lemma_flat_append(seq![l.take(e)], words_of(l.skip(e)));
        lemma_flat_one(l.take(e));
        assert(l.take(e) + l.skip(e) =~= l);
    }
}

/// The characters that a wrap has placed, in the rows that it finished and
/// in the row that it fills.
pub open spec fn placed_chars(st: Wrap) -> Seq<char> {
    flat(st.done) + st.cur
}

/// Adding characters one at a time places each of them once, in order.
pub proof fn lemma_wrap_chars_keeps(st: Wrap, cs: Seq<char>, w: nat)
    ensures
        placed_chars(wrap_chars(st, cs, w)) == placed_chars(st) + cs,
    decreases cs.len(),
{
    if cs.len() == 0 {
        assert(placed_chars(st) + cs =~= placed_chars(st));
    } else {
        let st2 = wrap_char(st, cs[0], w);
        if st.used + columns(cs[0]) > w {
            lemma_flat_push(st.done, st.cur);
        }
        assert(placed_chars(st2) =~= placed_chars(st).push(cs[0]));
        lemma_wrap_chars_keeps(st2, cs.drop_first(), w);
        assert(placed_chars(st).push(cs[0]) + cs.drop_first() =~= placed_chars(st) + cs);
    }
}

/// Adding a word places each of its characters once, in order.
pub proof fn lemma_wrap_word_keeps(st: Wrap, word: Seq<char>, w: nat)
    ensures
        placed_chars(wrap_word(st, word, w)) == placed_chars(st) + word,
{
    let ww = text_width(word) as nat;
    let st1 = if st.used + ww > w && st.cur.len() > 0 {
        Wrap { done: st.done.push(st.cur), cur: Seq::empty(), used: 0 }
    } else {
        st
    };
    if st.used + ww > w && st.cur.len() > 0 {
        lemma_flat_push(st.done, st.cur);
    }
    assert(placed_chars(st1) =~= placed_chars(st));
    if ww > w {
        lemma_wrap_chars_keeps(st1, word, w);
    } else {
        assert(placed_chars(wrap_word(st, word, w)) =~= placed_chars(st1) + word);
    }
}

/// Adding words places each of their characters once, in order.
pub proof fn lemma_wrap_words_keeps(st: Wrap, ws: Seq<Seq<char>>, w: nat)
    ensures
        placed_chars(wrap_words(st, ws, w)) == placed_chars(st) + flat(ws),
    decreases ws.len(),
{
    if ws.len() == 0 {
        assert(placed_chars(st) + flat(ws) =~= placed_chars(st));
    } else {
        let st2 = wrap_word(st, ws[0], w);
        lemma_wrap_word_keeps(st, ws[0], w);
        lemma_wrap_words_keeps(st2, ws.drop_first(), w);
        lemma_flat_append(seq![ws[0]], ws.drop_first());
        assert(seq![ws[0]] + ws.drop_first() =~= ws);
        lemma_flat_one(ws[0]);
        assert(placed_chars(st) + ws[0] + flat(ws.drop_first()) =~= placed_chars(st) + flat(ws));
    }
}

/// The wrap loses no character of a line and adds none: its rows, one after
/// the other, give the line without the returns at its end.
pub proof fn a_wrapped_line_keeps_its_characters(raw: Seq<char>, w: nat)
    ensures
        flat(wrap_line(raw, w)) == trim_returns(raw),
{
    let line = trim_returns(raw);
    if line.len() == 0 {
        assert(line =~= Seq::<char>::empty());
        lemma_flat_one(line);
    } else {
        let st0 = Wrap { done: Seq::empty(), cur: Seq::empty(), used: 0 };
        lemma_wrap_words_keeps(st0, words_of(line), w);
        lemma_words_join(line);
        let st = wrap_words(st0, words_of(line), w);
        lemma_flat_push(st.done, st.cur);
        assert(placed_chars(st0) =~= Seq::<char>::empty());
        assert(Seq::<char>::empty() + line =~= line);
        assert(placed_chars(st) == line);
        assert(wrap_line(raw, w) == st.done.push(st.cur));
    }
}

/// The rows of the lines of a text, one after the other, hold the
/// characters of each line without the returns at its end.
pub open spec fn trimmed_lines(ls: Seq<Seq<char>>) -> Seq<char>
    decreases ls.len(),
{
    if ls.len() == 0 {
        Seq::empty()
    } else {
        trim_returns(ls[0]) + trimmed_lines(ls.drop_first())
    }
}

/// The wrap loses no character of a text and adds none, but for the line
/// ends and the returns in front of them: its rows, one after the other,
/// give the lines of the text, each without the returns at its end.
pub proof fn a_wrapped_text_keeps_its_characters(s: Seq<char>, w: nat)
    requires
        w > 0,
    ensures
        flat(wrapped(s, w)) == trimmed_lines(lines_of(s)),
{
    lemma_wrap_lines_keep(lines_of(s), w);
}

/// The rows of a list of lines hold their characters.
pub proof fn lemma_wrap_lines_keep(ls: Seq<Seq<char>>, w: nat)
    ensures
        flat(wrap_lines(ls, w)) == trimmed_lines(ls),
    decreases ls.len(),
{
    if ls.len() > 0 {
        lemma_wrap_lines_keep(ls.drop_first(), w);
        a_wrapped_line_keeps_its_characters(ls[0], w);
        lemma_flat_append(wrap_line(ls[0], w), wrap_lines(ls.drop_first(), w));
    }
}


/// No character of a text takes more than `w` columns.
pub open spec fn narrow(cs: Seq<char>, w: nat) -> bool {
    forall|i: int| 0 <= i < cs.len() ==> columns(#[trigger] cs[i]) <= w
}

/// Each word of each line of a text takes on the screen the columns of its
/// characters, one after the other (as `unicode-width` gives for a word with
/// no sequence that its rules join into one sign).
pub open spec fn words_add_up(s: Seq<char>) -> bool {
    forall|i: int, k: int|
        0 <= i < lines_of(s).len() && 0 <= k < words_of(trim_returns(lines_of(s)[i])).len() ==> text_width(
            #[trigger] words_of(trim_returns(lines_of(s)[i]))[k],
        ) == sum_columns(words_of(trim_returns(lines_of(s)[i]))[k])
}

/// No row takes more than `w` columns.
pub open spec fn rows_fit(rows: Seq<Seq<char>>, w: nat) -> bool {
    forall|i: int| 0 <= i < rows.len() ==> sum_columns(#[trigger] rows[i]) <= w
}

/// A state of the wrap whose rows, finished or not, keep inside the width.
pub open spec fn wrap_fits(st: Wrap, w: nat) -> bool {
    &&& st.used == sum_columns(st.cur)
    &&& st.used <= w
    &&& rows_fit(st.done, w)
}

/// The rows stay inside the width after one more row that fits.
proof fn lemma_rows_fit_push(rows: Seq<Seq<char>>, x: Seq<char>, w: nat)
    requires
        rows_fit(rows, w),
        sum_columns(x) <= w,
    ensures
        rows_fit(rows.push(x), w),
{
    assert forall|i: int| 0 <= i < rows.push(x).len() implies sum_columns(#[trigger] rows.push(x)[i]) <= w by {
        if i < rows.len() {
            assert(rows.push(x)[i] == rows[i]);
        }
    }
}

/// A character no wider than a row keeps the state inside the width.
proof fn lemma_wrap_char_fits(st: Wrap, c: char, w: nat)
    requires
        wrap_fits(st, w),
        columns(c) <= w,
    ensures
        wrap_fits(wrap_char(st, c, w), w),
{
    let st1 = if st.used + columns(c) > w {
        Wrap { done: st.done.push(st.cur), cur: Seq::empty(), used: 0 }
    } else {
        st
    };
    if st.used + columns(c) > w {
        lemma_rows_fit_push(st.done, st.cur, w);
        assert(sum_columns(Seq::<char>::empty()) == 0);
    }
    lemma_sum_columns_push(st1.cur, c);
}

/// The same for the characters of a word, one at a time.
proof fn lemma_wrap_chars_fits(st: Wrap, cs: Seq<char>, w: nat)
    requires
        wrap_fits(st, w),
        narrow(cs, w),
    ensures
        wrap_fits(wrap_chars(st, cs, w), w),
    decreases cs.len(),
{
    if cs.len() > 0 {
        assert(columns(cs[0]) <= w);
        lemma_wrap_char_fits(st, cs[0], w);
        assert forall|i: int| 0 <= i < cs.drop_first().len() implies columns(#[trigger] cs.drop_first()[i]) <= w by {
            assert(cs.drop_first()[i] == cs[i + 1]);
        }
        lemma_wrap_chars_fits(wrap_char(st, cs[0], w), cs.drop_first(), w);
    }
}

/// A word whose characters are no wider than a row, and which takes the
/// columns of its characters, keeps the state inside the width.
proof fn lemma_wrap_word_fits(st: Wrap, word: Seq<char>, w: nat)
    requires
        wrap_fits(st, w),
        narrow(word, w),
        text_width(word) == sum_columns(word),
    ensures
        wrap_fits(wrap_word(st, word, w), w),
{
    let ww = text_width(word) as nat;
    let st1 = if st.used + ww > w && st.cur.len() > 0 {
        Wrap { done: st.done.push(st.cur), cur: Seq::empty(), used: 0 }
    } else {
        st
    };
    if st.used + ww > w && st.cur.len() > 0 {
        lemma_rows_fit_push(st.done, st.cur, w);
        assert(sum_columns(Seq::<char>::empty()) == 0);
    }
    if st.cur.len() == 0 {
        assert(sum_columns(st.cur) == 0);
    }
    assert(wrap_fits(st1, w));
    if ww > w {
        lemma_wrap_chars_fits(st1, word, w);
    } else {
        crate::chars::lemma_sum_columns_append(st1.cur, word);
    }
}

/// The same for the words of a line, one at a time.
proof fn lemma_wrap_words_fits(st: Wrap, ws: Seq<Seq<char>>, w: nat)
    requires
        wrap_fits(st, w),
        forall|k: int| 0 <= k < ws.len() ==> narrow(#[trigger] ws[k], w),
        forall|k: int| 0 <= k < ws.len() ==> text_width(#[trigger] ws[k]) == sum_columns(ws[k]),
    ensures
        wrap_fits(wrap_words(st, ws, w), w),
    decreases ws.len(),
{
    if ws.len() > 0 {
        assert(narrow(ws[0], w));
        assert(text_width(ws[0]) == sum_columns(ws[0]));
        lemma_wrap_word_fits(st, ws[0], w);
        assert forall|k: int| 0 <= k < ws.drop_first().len() implies narrow(#[trigger] ws.drop_first()[k], w) by {
            assert(ws.drop_first()[k] == ws[k + 1]);
        }
        assert forall|k: int| 0 <= k < ws.drop_first().len() implies text_width(#[trigger] ws.drop_first()[k])
            == sum_columns(ws.drop_first()[k]) by {
            assert(ws.drop_first()[k] == ws[k + 1]);
        }
        lemma_wrap_words_fits(wrap_word(st, ws[0], w), ws.drop_first(), w);
    }
}

/// The characters of one row of a list are characters of the list.
proof fn lemma_narrow_flat(d: Seq<Seq<char>>, w: nat)
    requires
        narrow(flat(d), w),
    ensures
        forall|k: int| 0 <= k < d.len() ==> narrow(#[trigger] d[k], w),
    decreases d.len(),
{
    if d.len() > 0 {
        let f = flat(d.drop_last());
        assert(flat(d) == f + d.last());
        assert forall|j: int| 0 <= j < f.len() implies columns(#[trigger] f[j]) <= w by {
            assert(flat(d)[j] == f[j]);
        }
        lemma_narrow_flat(d.drop_last(), w);
        assert forall|k: int| 0 <= k < d.len() implies narrow(#[trigger] d[k], w) by {
            if k < d.len() - 1 {
                assert(d[k] == d.drop_last()[k]);
            } else {
                assert forall|j: int| 0 <= j < d[k].len() implies columns(#[trigger] d[k][j]) <= w by {
                    assert(flat(d)[f.len() + j] == d.last()[j]);
                }
            }
        }
    }
}

/// The characters of each line of a text are characters of the text.
proof fn lemma_narrow_lines(s: Seq<char>, w: nat)
    requires
        narrow(s, w),
    ensures
        forall|i: int| 0 <= i < lines_of(s).len() ==> narrow(#[trigger] lines_of(s)[i], w),
    decreases s.len(),
{
    lemma_line_end(s, 0);
    let e = line_end(s, 0);
    if e < s.len() {
        let rest = s.skip(e + 1);
        assert forall|j: int| 0 <= j < rest.len() implies columns(#[trigger] rest[j]) <= w by {
            assert(rest[j] == s[j + e + 1]);
        }
        lemma_narrow_lines(rest, w);
        assert(lines_of(s) == seq![s.take(e)] + lines_of(rest));
        assert forall|i: int| 0 <= i < lines_of(s).len() implies narrow(#[trigger] lines_of(s)[i], w) by {
            if i == 0 {
                assert forall|j: int| 0 <= j < s.take(e).len() implies columns(#[trigger] s.take(e)[j]) <= w by {
                    assert(s.take(e)[j] == s[j]);
                }
            } else {
                assert(lines_of(s)[i] == lines_of(rest)[i - 1]);
            }
        }
    } else {
        assert(lines_of(s) == seq![s]);
    }
}

/// A line without its returns holds characters of the line.
proof fn lemma_narrow_trim(l: Seq<char>, w: nat)
    requires
        narrow(l, w),
    ensures
        narrow(trim_returns(l), w),
    decreases l.len(),
{
    if l.len() > 0 && l.last() == '\r' {
        assert forall|j: int| 0 <= j < l.drop_last().len() implies columns(#[trigger] l.drop_last()[j]) <= w by {
            assert(l.drop_last()[j] == l[j]);
        }
        lemma_narrow_trim(l.drop_last(), w);
    }
}

/// The rows of one line keep inside the width.
proof fn lemma_wrap_line_fits(raw: Seq<char>, w: nat)
    requires
        narrow(raw, w),
        forall|k: int|
            0 <= k < words_of(trim_returns(raw)).len() ==> text_width(#[trigger] words_of(trim_returns(raw))[k])
                == sum_columns(words_of(trim_returns(raw))[k]),
    ensures
        rows_fit(wrap_line(raw, w), w),
{
    let line = trim_returns(raw);
    if line.len() == 0 {
        assert(sum_columns(Seq::<char>::empty()) == 0);
        assert(wrap_line(raw, w) == seq![Seq::<char>::empty()]);
        assert(rows_fit(seq![Seq::<char>::empty()], w));
    } else {
        lemma_narrow_trim(raw, w);
        lemma_words_join(line);
        lemma_narrow_flat(words_of(line), w);
        let st0 = Wrap { done: Seq::empty(), cur: Seq::empty(), used: 0 };
        assert(sum_columns(Seq::<char>::empty()) == 0);
        assert(wrap_fits(st0, w));
        lemma_wrap_words_fits(st0, words_of(line), w);
        let st = wrap_words(st0, words_of(line), w);
        lemma_rows_fit_push(st.done, st.cur, w);
    }
}

/// The rows of a list of lines keep inside the width.
proof fn lemma_wrap_lines_fit(ls: Seq<Seq<char>>, w: nat)
    requires
        forall|i: int| 0 <= i < ls.len() ==> narrow(#[trigger] ls[i], w),
        forall|i: int, k: int|
            0 <= i < ls.len() && 0 <= k < words_of(trim_returns(ls[i])).len() ==> text_width(
                #[trigger] words_of(trim_returns(ls[i]))[k],
            ) == sum_columns(words_of(trim_returns(ls[i]))[k]),
    ensures
        rows_fit(wrap_lines(ls, w), w),
    decreases ls.len(),
{
    if ls.len() > 0 {
        let rest = ls.drop_first();
        assert forall|i: int| 0 <= i < rest.len() implies narrow(#[trigger] rest[i], w) by {
            assert(rest[i] == ls[i + 1]);
        }
        assert forall|i: int, k: int|
            0 <= i < rest.len() && 0 <= k < words_of(trim_returns(rest[i])).len() implies text_width(
                #[trigger] words_of(trim_returns(rest[i]))[k],
            ) == sum_columns(words_of(trim_returns(rest[i]))[k]) by {
            assert(rest[i] == ls[i + 1]);
        }
        lemma_wrap_lines_fit(rest, w);
        assert(narrow(ls[0], w));
        assert forall|k: int| 0 <= k < words_of(trim_returns(ls[0])).len() implies text_width(
            #[trigger] words_of(trim_returns(ls[0]))[k],
        ) == sum_columns(words_of(trim_returns(ls[0]))[k]) by {
            assert(0 <= 0 < ls.len());
        }
        lemma_wrap_line_fits(ls[0], w);
        let a = wrap_line(ls[0], w);
        let b = wrap_lines(rest, w);
        assert forall|i: int| 0 <= i < (a + b).len() implies sum_columns(#[trigger] (a + b)[i]) <= w by {
            if i < a.len() {
                assert((a + b)[i] == a[i]);
            } else {
                assert((a + b)[i] == b[i - a.len()]);
            }
        }
    }
}

/// A wrapped text keeps inside its width: where no character of the text
/// takes more than `w` columns, and each word takes the columns of its
/// characters, no row takes more than `w` columns. (A character wider than
/// the row gets a row of its own, wider than `w`.)
pub proof fn a_wrapped_row_fits_its_width(s: Seq<char>, w: nat)
    requires
        narrow(s, w),
        words_add_up(s),
    ensures
        rows_fit(wrapped(s, w), w),
{
    if w > 0 {
        lemma_narrow_lines(s, w);
        lemma_wrap_lines_fit(lines_of(s), w);
    }
}


/// The position in the line where the row `k` of a list of rows ends.
pub open spec fn row_end(rows: Seq<Seq<char>>, k: int) -> nat {
    flat(rows.take(k + 1)).len()
}

/// The position in the line where the word `m` of a list of words starts.
pub open spec fn word_start(ws: Seq<Seq<char>>, m: int) -> nat {
    flat(ws.take(m)).len()
}

/// Whether the position `p` lies inside a word of the list, after its first
/// character, where the word is wider than `w` columns.
pub open spec fn inside_wide_word(ws: Seq<Seq<char>>, w: nat, p: int) -> bool {
    exists|m: int|
        0 <= m < ws.len() && word_start(ws, m) < p < word_start(ws, m) + ws[m].len() && text_width(
            #[trigger] ws[m],
        ) > w
}

/// Whether a row of a line may end at the position `p`: at the start or the
/// end of the line, after a space, or inside a word wider than a row.
pub open spec fn fair_cut(line: Seq<char>, w: nat, p: int) -> bool {
    ||| p == 0
    ||| p == line.len()
    ||| (0 < p <= line.len() && line[p - 1] == ' ')
    ||| inside_wide_word(words_of(line), w, p)
}

/// A cut at the start of a word, or inside a word wider than a row.
spec fn word_cut(ws: Seq<Seq<char>>, w: nat, p: int) -> bool {
    (exists|m: int| 0 <= m <= ws.len() && p == #[trigger] word_start(ws, m)) || inside_wide_word(ws, w, p)
}

/// The ends of the rows of a list that starts with another list are those of
/// the other list.
proof fn lemma_row_end_prefix(d: Seq<Seq<char>>, e: Seq<Seq<char>>, k: int)
    requires
        d.len() <= e.len(),
        e.take(d.len() as int) == d,
        0 <= k < d.len(),
    ensures
        row_end(e, k) == row_end(d, k),
{
    assert(e.take(k + 1) =~= d.take(k + 1));
}

/// The row that a push adds ends after the characters of the rows before it.
proof fn lemma_row_end_push(d: Seq<Seq<char>>, x: Seq<char>)
    ensures
        row_end(d.push(x), d.len() as int) == flat(d).len() + x.len(),
        d.push(x).take(d.len() as int) == d,
{
    assert(d.push(x).take(d.len() + 1 as int) =~= d.push(x));
    lemma_flat_push(d, x);
    assert(d.push(x).take(d.len() as int) =~= d);
}

/// The characters of a word added one at a time end their rows inside the
/// word: at its start, or after some of its characters.
proof fn lemma_wrap_chars_cuts(st: Wrap, cs: Seq<char>, w: nat)
    ensures
        ({
            let res = wrap_chars(st, cs, w);
            &&& st.done.len() <= res.done.len()
            &&& res.done.take(st.done.len() as int) == st.done
            &&& forall|k: int|
                st.done.len() <= k < res.done.len() ==> placed_chars(st).len() <= #[trigger] row_end(res.done, k)
                    < placed_chars(st).len() + cs.len()
        }),
    decreases cs.len(),
{
    let res = wrap_chars(st, cs, w);
    if cs.len() == 0 {
        assert(res.done.take(st.done.len() as int) =~= st.done);
    } else {
        let c = cs[0];
        let st2 = wrap_char(st, c, w);
        let pushed = st.used + columns(c) > w;
        if pushed {
            lemma_row_end_push(st.done, st.cur);
        } else {
            assert(st2.done =~= st.done);
        }
        assert(st2.done.take(st.done.len() as int) =~= st.done);
        lemma_wrap_chars_keeps(st, seq![c], w);
        assert(placed_chars(st2).len() == placed_chars(st).len() + 1) by {
            if pushed {
                lemma_flat_push(st.done, st.cur);
            }
        }
        lemma_wrap_chars_cuts(st2, cs.drop_first(), w);
        assert(res == wrap_chars(st2, cs.drop_first(), w));
        assert(res.done.take(st.done.len() as int) =~= st.done) by {
            assert(res.done.take(st.done.len() as int) =~= res.done.take(st2.done.len() as int).take(
                st.done.len() as int,
            ));
        }
        assert forall|k: int| st.done.len() <= k < res.done.len() implies placed_chars(st).len()
            <= #[trigger] row_end(res.done, k) < placed_chars(st).len() + cs.len() by {
            if k < st2.done.len() {
                assert(pushed && k == st.done.len());
                lemma_row_end_prefix(st2.done, res.done, k);
            }
        }
    }
}

/// A word ends the rows before it at its start, or ends rows inside itself
/// when it is wider than a row.
proof fn lemma_wrap_word_cuts(st: Wrap, word: Seq<char>, w: nat)
    ensures
        ({
            let res = wrap_word(st, word, w);
            &&& st.done.len() <= res.done.len()
            &&& res.done.take(st.done.len() as int) == st.done
            &&& forall|k: int|
                st.done.len() <= k < res.done.len() ==> #[trigger] row_end(res.done, k) == placed_chars(st).len()
                    || (text_width(word) > w && placed_chars(st).len() < row_end(res.done, k)
                    < placed_chars(st).len() + word.len())
        }),
{
    let ww = text_width(word) as nat;
    let pushed = st.used + ww > w && st.cur.len() > 0;
    let st1 = if pushed {
        Wrap { done: st.done.push(st.cur), cur: Seq::empty(), used: 0 }
    } else {
        st
    };
    let res = wrap_word(st, word, w);
    if pushed {
        lemma_row_end_push(st.done, st.cur);
        lemma_flat_push(st.done, st.cur);
    }
    assert(st1.done.take(st.done.len() as int) =~= st.done);
    assert(placed_chars(st1).len() == placed_chars(st).len());
    if ww > w {
        lemma_wrap_chars_cuts(st1, word, w);
        assert(res.done.take(st.done.len() as int) =~= st.done) by {
            assert(res.done.take(st.done.len() as int) =~= res.done.take(st1.done.len() as int).take(
                st.done.len() as int,
            ));
        }
        assert forall|k: int| st.done.len() <= k < res.done.len() implies #[trigger] row_end(res.done, k)
            == placed_chars(st).len() || (text_width(word) > w && placed_chars(st).len() < row_end(res.done, k)
            < placed_chars(st).len() + word.len()) by {
            if k < st1.done.len() {
                lemma_row_end_prefix(st1.done, res.done, k);
            }
        }
    } else {
        assert(res.done == st1.done);
        assert forall|k: int| st.done.len() <= k < res.done.len() implies #[trigger] row_end(res.done, k)
            == placed_chars(st).len() by {
        }
    }
}

/// Adding the words from the `m`-th one on ends each row at the start of a
/// word or inside a word wider than a row.
proof fn lemma_wrap_words_cuts(st: Wrap, ws: Seq<Seq<char>>, m: int, w: nat)
    requires
        0 <= m <= ws.len(),
        placed_chars(st) == flat(ws.take(m)),
        forall|k: int| 0 <= k < st.done.len() ==> word_cut(ws, w, #[trigger] row_end(st.done, k) as int),
    ensures
        forall|k: int|
            0 <= k < wrap_words(st, ws.skip(m), w).done.len() ==> word_cut(
                ws,
                w,
                #[trigger] row_end(wrap_words(st, ws.skip(m), w).done, k) as int,
            ),
    decreases ws.len() - m,
{
    if m < ws.len() {
        let word = ws[m];
        let st2 = wrap_word(st, word, w);
        assert(ws.skip(m)[0] == word);
        assert(ws.skip(m).drop_first() =~= ws.skip(m + 1));
        assert(wrap_words(st, ws.skip(m), w) == wrap_words(st2, ws.skip(m + 1), w));
        lemma_wrap_word_cuts(st, word, w);
        lemma_wrap_word_keeps(st, word, w);
        assert(ws.take(m + 1).drop_last() =~= ws.take(m));
        assert(placed_chars(st2) == flat(ws.take(m + 1)));
        assert(word_start(ws, m) == placed_chars(st).len());
        assert forall|k: int| 0 <= k < st2.done.len() implies word_cut(ws, w, #[trigger] row_end(st2.done, k) as int) by {
            if k < st.done.len() {
                lemma_row_end_prefix(st.done, st2.done, k);
            } else if row_end(st2.done, k) == placed_chars(st).len() {
                assert(row_end(st2.done, k) == word_start(ws, m));
            } else {
                assert(0 <= m < ws.len() && word_start(ws, m) < row_end(st2.done, k) < word_start(ws, m)
                    + ws[m].len() && text_width(ws[m]) > w);
                assert(inside_wide_word(ws, w, row_end(st2.done, k) as int));
            }
        }
        lemma_wrap_words_cuts(st2, ws, m + 1, w);
    } else {
        assert(ws.skip(m) =~= Seq::<Seq<char>>::empty());
    }
}

/// Each word but the last of a line ends with its space, and no word is
/// empty.
proof fn lemma_words_end_in_space(l: Seq<char>)
    ensures
        forall|m: int| 0 <= m < words_of(l).len() ==> (#[trigger] words_of(l)[m]).len() > 0,
        forall|m: int| 0 <= m < words_of(l).len() - 1 ==> (#[trigger] words_of(l)[m]).last() == ' ',
    decreases l.len(),
{
    if l.len() > 0 {
        lemma_word_end_at(l, 0);
        lemma_word_end_space(l, 0);
        let e = word_end_at(l, 0);
        lemma_words_end_in_space(l.skip(e));
        let ws = words_of(l);
        let rest = words_of(l.skip(e));
        assert(ws == seq![l.take(e)] + rest);
        if rest.len() > 0 {
            assert(l.skip(e).len() > 0);
            assert(l.take(e).last() == l[e - 1]);
        }
        assert forall|m: int| 0 <= m < ws.len() implies (#[trigger] ws[m]).len() > 0 by {
            if m > 0 {
                assert(ws[m] == rest[m - 1]);
            }
        }
        assert forall|m: int| 0 <= m < ws.len() - 1 implies (#[trigger] ws[m]).last() == ' ' by {
            if m > 0 {
                assert(ws[m] == rest[m - 1]);
            }
        }
    }
}

/// A word that ends before the end of the text ends with a space.
proof fn lemma_word_end_space(s: Seq<char>, i: int)
    requires
        0 <= i <= s.len(),
    ensures
        word_end_at(s, i) < s.len() ==> word_end_at(s, i) >= 1 && s[word_end_at(s, i) - 1] == ' ',
    decreases s.len() - i,
{
    if i < s.len() && s[i] != ' ' {
        lemma_word_end_space(s, i + 1);
    }
}

/// In a list of words that each end with a space but the last, a word starts
/// at the start of the text, at its end, or after a space.
proof fn lemma_start_after_space(ws: Seq<Seq<char>>, m: int)
    requires
        0 <= m <= ws.len(),
        forall|k: int| 0 <= k < ws.len() ==> (#[trigger] ws[k]).len() > 0,
        forall|k: int| 0 <= k < ws.len() - 1 ==> (#[trigger] ws[k]).last() == ' ',
    ensures
        ({
            let p = word_start(ws, m);
            p == 0 || p == flat(ws).len() || (0 < p <= flat(ws).len() && flat(ws)[p - 1] == ' ')
        }),
{
    let p = word_start(ws, m);
    if m == ws.len() {
        assert(ws.take(m) =~= ws);
    } else if m > 0 {
        lemma_flat_append(ws.take(m), ws.skip(m));
        assert(ws.take(m) + ws.skip(m) =~= ws);
        assert(ws.take(m).drop_last() =~= ws.take(m - 1));
        assert(ws.take(m).last() == ws[m - 1]);
        let a = flat(ws.take(m - 1));
        let x = ws[m - 1];
        assert(flat(ws.take(m)) == a + x);
        assert(x.len() > 0);
        assert(x.last() == ' ');
        assert((a + x)[p - 1] == x[x.len() - 1]);
        assert(flat(ws)[p - 1] == flat(ws.take(m))[p - 1]);
    } else {
        assert(ws.take(0) =~= Seq::<Seq<char>>::empty());
    }
}

/// The start of a word of a line is a fair place for a row to end: the
/// start of the line, the end of the line, or the place after a space.
proof fn lemma_word_start_cut(line: Seq<char>, m: int, w: nat)
    requires
        0 <= m <= words_of(line).len(),
    ensures
        fair_cut(line, w, word_start(words_of(line), m) as int),
{
    lemma_words_join(line);
    lemma_words_end_in_space(line);
    lemma_start_after_space(words_of(line), m);
}

/// A word that fits in a row is never broken: each row of a line but the
/// last ends at the start or the end of the line, after a space, or inside a
/// word wider than `w` columns.
pub proof fn a_word_that_fits_is_never_broken(raw: Seq<char>, w: nat)
    ensures
        forall|k: int|
            0 <= k < wrap_line(raw, w).len() - 1 ==> fair_cut(
                trim_returns(raw),
                w,
                #[trigger] row_end(wrap_line(raw, w), k) as int,
            ),
{
    let line = trim_returns(raw);
    if line.len() > 0 {
        let ws = words_of(line);
        let st0 = Wrap { done: Seq::empty(), cur: Seq::empty(), used: 0 };
        assert(ws.skip(0) =~= ws);
        assert(ws.take(0) =~= Seq::<Seq<char>>::empty());
        assert(placed_chars(st0) =~= flat(ws.take(0)));
        lemma_wrap_words_cuts(st0, ws, 0, w);
        let st = wrap_words(st0, ws, w);
        let rows = st.done.push(st.cur);
        assert(wrap_line(raw, w) == rows);
        lemma_row_end_push(st.done, st.cur);
        assert forall|k: int| 0 <= k < rows.len() - 1 implies fair_cut(line, w, #[trigger] row_end(rows, k) as int) by {
            lemma_row_end_prefix(st.done, rows, k);
            let p = row_end(rows, k);
            assert(word_cut(ws, w, row_end(st.done, k) as int));
            if !inside_wide_word(ws, w, p as int) {
                let m = choose|m: int| 0 <= m <= ws.len() && p == #[trigger] word_start(ws, m);
                lemma_word_start_cut(line, m, w);
            }
        }
    }
}

} // verus!
