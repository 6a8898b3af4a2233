//! The geometry of the overlays that cover the grid (the help, the command
//! palette, the theme picker, the cell inspector, the record view and the
//! filter builder), the marks of the palette, and the lines of the help.

use vstd::prelude::*;

use crate::app::Rect;
use crate::chars::{
    byte_len, char_bytes, chars_of, lemma_byte_len_push, lemma_byte_len_take, lower_char, lower_each,
    lower_text, lowercase_of, lowercase_text, text_bytes, utf8_len, white_space,
};
use crate::commands::{
    binding, bindings, entry_of, fuzzy, fuzzy_match, in_order, key_table, keys_of, text_table, texts_of,
    without_space, Binding, Cmd,
};
use crate::chars::{contains_chars, holds_text, trimmed, trimmed_chars};
use crate::tree::{Family, NodeKind};

verus! {

/// A share of a length, with 32 bits so that a very wide terminal does not
/// overflow.
pub open spec fn share(v: u16, p: u16) -> int {
    (v as int * p as int) / 100
}

fn pct(v: u16, p: u16) -> (r: u16)
    requires
        p <= 100,
    ensures
        r == share(v, p),
{
    assert(v * p <= 65535 * 100) by (nonlinear_arith)
        requires
            v <= 65535,
            p <= 100,
    ;
    let prod: u32 = (v as u32) * (p as u32);
    let x: u32 = prod / 100;
    assert(x <= v) by (nonlinear_arith)
        requires
            prod == v * p,
            x == prod / 100,
            p <= 100,
    ;
    x as u16
}

/// The smaller of two numbers.
pub open spec fn least(a: int, b: int) -> int {
    if a <= b { a } else { b }
}

/// Gives an area in the middle of the screen, as a percentage of the screen.
pub fn centered(area: Rect, w_pct: u16, h_pct: u16, max_w: u16) -> (r: Rect)
    requires
        area.valid(),
        w_pct <= 100,
        h_pct <= 100,
    ensures
        r.width == least(least(share(area.width, w_pct), max_w as int), area.width as int),
        r.height == least(share(area.height, h_pct), area.height as int),
        r.x == area.x + (area.width - r.width) / 2,
        r.y == area.y + (area.height - r.height) / 2,
        r.width <= area.width,
        r.height <= area.height,
        r.right() <= area.right(),
        r.bottom() <= area.bottom(),
{
    let w0 = pct(area.width, w_pct);
    let w1 = if w0 < max_w { w0 } else { max_w };
    let w = if w1 < area.width { w1 } else { area.width };
    let h0 = pct(area.height, h_pct);
    let h = if h0 < area.height { h0 } else { area.height };
    let dx = (area.width - w) / 2;
    let dy = (area.height - h) / 2;
    Rect { x: area.x + dx, y: area.y + dy, width: w, height: h }
}

/// Gives an area in the middle of the screen with a height in rows.
///
/// A box that takes one line of text needs a height in rows, and not a
/// percentage: a percentage of a small terminal gives a box that cannot hold
/// the prompt. The height comes first, and the position follows it, so the box
/// always stays inside the screen.
pub fn centered_rows(area: Rect, w_pct: u16, rows: u16, max_w: u16) -> (r: Rect)
    requires
        area.valid(),
        w_pct <= 100,
    ensures
        r.width == least(least(share(area.width, w_pct), max_w as int), area.width as int),
        r.height == least(rows as int, area.height as int),
        r.x == area.x + (area.width - r.width) / 2,
        r.y == area.y + (area.height - r.height) / 2,
        r.right() <= area.right(),
        r.bottom() <= area.bottom(),
{
    let w0 = pct(area.width, w_pct);
    let w1 = if w0 < max_w { w0 } else { max_w };
    let w = if w1 < area.width { w1 } else { area.width };
    let h = if rows < area.height { rows } else { area.height };
    let dx = (area.width - w) / 2;
    let dy = (area.height - h) / 2;
    Rect { x: area.x + dx, y: area.y + dy, width: w, height: h }
}

/// Gives the box of the command palette.
///
/// The palette draws its own prompt inside the box: the prompt is on the row
/// `y + 1`, and the text of the prompt starts at the column `x + 4`. The widest
/// row holds a key label, the longest description and a group tag, and a box
/// of 96 columns holds the three with no cut.
pub fn palette_rect(area: Rect) -> (r: Rect)
    requires
        area.valid(),
    ensures
        r.width == least(least(share(area.width, 80), 96), area.width as int),
        r.height == least(share(area.height, 80), area.height as int),
        r.x == area.x + (area.width - r.width) / 2,
        r.y == area.y + (area.height - r.height) / 2,
        r.right() <= area.right(),
        r.bottom() <= area.bottom(),
{
    centered(area, 80, 80, 96)
}

/// The first item of a window of `window` rows over a list of `len` items that
/// shows the item `sel` near its middle.
pub open spec fn window_from(sel: int, len: int, window: int) -> int {
    if window == 0 || len <= window {
        0
    } else {
        let back = if sel >= window / 2 { sel - window / 2 } else { 0 };
        least(back, len - window)
    }
}

/// Gives the first item of a window that shows the item `sel`.
///
/// The selected item stays near the middle of the window, so the user sees the
/// items after it and the items before it. A window that keeps the selected
/// item on its last row shows nothing after that item, and a list of fifty
/// commands then reads as a list of one. Each list in each overlay therefore
/// uses this one function.
///
/// A window of some rows always holds the selected item, never goes past the
/// last item, and a list that fits needs no scroll.
pub fn window_start(sel: usize, len: usize, window: usize) -> (r: usize)
    ensures
        r == window_from(sel as int, len as int, window as int),
        window > 0 && sel < len ==> r <= sel < r + window,
        len > window ==> r + window <= len,
        len <= window ==> r == 0,
{
    if window == 0 || len <= window {
        return 0;
    }
    let back = sel.saturating_sub(window / 2);
    if back < len - window { back } else { len - window }
}

/// The position in `want` after the small letters of one character took their
/// turn: each one that is the next wanted character moves the position on.
pub open spec fn advance(want: Seq<char>, at: nat, lcs: Seq<char>) -> nat
    decreases lcs.len(),
{
    if lcs.len() == 0 {
        at
    } else {
        let next = if at < want.len() && want[at as int] == lcs[0] { at + 1 } else { at };
        advance(want, next, lcs.drop_first())
    }
}

/// The byte positions of the characters of `hay` that move the match of
/// `want` on, from the position `at` of `want` and the byte `byte` of the
/// text, until the whole of `want` matched or the text ends.
pub open spec fn positions(want: Seq<char>, hay: Seq<char>, at: nat, byte: nat) -> Seq<nat>
    decreases hay.len(),
{
    if hay.len() == 0 {
        Seq::empty()
    } else {
        let next = advance(want, at, lower_char(hay[0]));
        let here = if next > at { seq![byte] } else { Seq::<nat>::empty() };
        if next >= want.len() {
            here
        } else {
            here + positions(want, hay.drop_first(), next, byte + utf8_len(hay[0]))
        }
    }
}

/// Gives `true` when the walk through the small letters of the characters
/// of `hay`, one character after the other, matches the whole of `want`
/// from its position `at`.
pub open spec fn reaches(want: Seq<char>, hay: Seq<char>, at: nat) -> bool
    decreases hay.len(),
{
    if hay.len() == 0 {
        false
    } else {
        let next = advance(want, at, lower_char(hay[0]));
        next >= want.len() || reaches(want, hay.drop_first(), next)
    }
}

/// The characters that the palette looks for: the small letters of the query
/// without its white space.
pub open spec fn wanted(needle: Seq<char>) -> Seq<char> {
    without_space(lower_text(needle))
}

/// The marks of the palette for a query over a text: none for a text that
/// the match of the palette refuses, so that the marks agree with
/// [`fuzzy`]; otherwise the characters that the walk through the text took.
pub open spec fn marks(needle: Seq<char>, hay: Seq<char>) -> Option<Seq<nat>> {
    if !fuzzy(needle, hay) {
        None
    } else if wanted(needle).len() == 0 {
        Some(Seq::empty())
    } else {
        Some(positions(wanted(needle), hay, 0, 0))
    }
}

/// A query of ASCII white space wants no character.
proof fn lemma_blank_wants_nothing(n: Seq<char>)
    requires
        crate::chars::all_ascii(n),
        crate::input::blank(n),
    ensures
        without_space(crate::chars::ascii_lowered(n)).len() == 0,
    decreases n.len(),
{
    if n.len() > 0 {
        let m = crate::chars::ascii_lowered(n);
        let d = n.drop_last();
        assert(crate::chars::all_ascii(d)) by {
            assert forall|i: int| 0 <= i < d.len() implies (#[trigger] d[i] as u32) < 0x80 by {
                assert(d[i] == n[i]);
            }
        }
        assert(crate::input::blank(d)) by {
            assert forall|i: int| 0 <= i < d.len() implies white_space(#[trigger] d[i]) by {
                assert(d[i] == n[i]);
            }
        }
        lemma_blank_wants_nothing(d);
        assert(m.drop_last() =~= crate::chars::ascii_lowered(d));
        assert(m =~= m.drop_last().push(m.last()));
        assert(white_space(n[n.len() - 1]));
        assert(m.last() == n.last());
        m.drop_last().lemma_filter_push(m.last(), |c: char| !white_space(c));
    } else {
        assert(crate::chars::ascii_lowered(n) =~= Seq::<char>::empty());
        assert(without_space(Seq::<char>::empty()) =~= Seq::<char>::empty());
    }
}

/// A list of byte positions as numbers.
pub open spec fn nat_view(v: Seq<usize>) -> Seq<nat> {
    v.map_values(|x: usize| x as nat)
}

/// Gives the byte position in `hay` of each character that `needle` matched.
///
/// The palette marks these characters. The user then sees why a row is in the
/// list, and not only that the list is short.
///
/// The walk goes through the given text, and not through a copy in small
/// letters. A change to small letters can change the number of characters, so
/// a position in the copy is not always a position in the given text.
///
/// The result is `None` exactly when the text does not match, so the
/// function agrees with [`fuzzy_match`]. A query of ASCII white space matches
/// each text and marks nothing.
pub fn match_positions(needle: &str, hay: &str) -> (r: Option<Vec<usize>>)
    ensures
        match r {
            Some(v) => marks(needle@, hay@) == Some(nat_view(v@)),
            None => marks(needle@, hay@) is None,
        },
        r is Some <==> fuzzy(needle@, hay@),
        crate::chars::all_ascii(needle@) && crate::input::blank(needle@) ==> (r matches Some(v) && v@.len() == 0),
{
    let nl = chars_of(lowercase_text(needle).as_str());
    proof {
        if crate::chars::all_ascii(needle@) && crate::input::blank(needle@) {
            lemma_blank_wants_nothing(needle@);
        }
    }
    if !fuzzy_match(needle, hay) {
        return None;
    }
    let mut want: Vec<char> = Vec::new();
    let mut i: usize = 0;
    while i < nl.len()
        invariant
            i <= nl@.len(),
            nl@ == lower_text(needle@),
            want@ == without_space(nl@.take(i as int)),
        decreases nl@.len() - i,
    {
        proof {
            assert(nl@.take(i + 1) =~= nl@.take(i as int).push(nl@[i as int]));
            nl@.take(i as int).lemma_filter_push(nl@[i as int], |c: char| !white_space(c));
        }
        if !crate::chars::is_whitespace(nl[i]) {
            want.push(nl[i]);
        }
        i += 1;
    }
    assert(nl@.take(i as int) =~= nl@);
    if want.len() == 0 {
        let out: Vec<usize> = Vec::new();
        assert(nat_view(out@) =~= Seq::<nat>::empty());
        return Some(out);
    }
    let hs = chars_of(hay);
    let total = text_bytes(hay);
    let mut at: usize = 0;
    let mut byte: usize = 0;
    let mut out: Vec<usize> = Vec::new();
    let mut k: usize = 0;
    assert(hs@.skip(0) =~= hs@);
    assert(hs@.take(0) =~= Seq::<char>::empty());
    while k < hs.len()
        invariant
            k <= hs@.len(),
            hs@ == hay@,
            total == byte_len(hay@),
            want@ == wanted(needle@),
            want@.len() > 0,
            !(crate::chars::all_ascii(needle@) && crate::input::blank(needle@)),
            at < want@.len(),
            byte == byte_len(hs@.take(k as int)),
            fuzzy(needle@, hay@),
            positions(want@, hs@, 0, 0) == nat_view(out@) + positions(want@, hs@.skip(k as int), at as nat, byte as nat),
        decreases hs@.len() - k,
    {
        let c = hs[k];
        let lcs = lowercase_of(c);
        let mut at2: usize = at;
        let mut j: usize = 0;
        assert(lcs@.skip(0) =~= lcs@);
        while j < lcs.len()
            invariant
                j <= lcs@.len(),
                at <= at2 <= want@.len(),
                advance(want@, at as nat, lcs@) == advance(want@, at2 as nat, lcs@.skip(j as int)),
            decreases lcs@.len() - j,
        {
            assert(lcs@.skip(j as int).drop_first() =~= lcs@.skip(j + 1));
            if at2 < want.len() && want[at2] == lcs[j] {
                at2 += 1;
            }
            j += 1;
        }
        let ghost rest_hay = hs@.skip(k as int);
        assert(rest_hay[0] == c);
        assert(rest_hay.drop_first() =~= hs@.skip(k + 1));
        proof {
            lemma_byte_len_push(hs@.take(k as int), c);
            assert(hs@.take(k + 1) =~= hs@.take(k as int).push(c));
            lemma_byte_len_take(hs@, k + 1);
        }
        let ghost old_out = nat_view(out@);
        let ghost here = if at2 > at { seq![byte as nat] } else { Seq::<nat>::empty() };
        if at2 > at {
            out.push(byte);
        }
        assert(nat_view(out@) =~= old_out + here);
        if at2 >= want.len() {
            proof {
                assert(positions(want@, rest_hay, at as nat, byte as nat) == here);
                assert(nat_view(out@) =~= old_out + here);
            }
            return Some(out);
        }
        proof {
            let tail = positions(want@, hs@.skip(k + 1), at2 as nat, (byte + utf8_len(c)) as nat);
            vstd::seq_lib::lemma_concat_associative(old_out, here, tail);
        }
        byte = byte + char_bytes(c);
        at = at2;
        k += 1;
    }
    assert(hs@.skip(k as int).len() == 0);
    assert(nat_view(out@) + Seq::<nat>::empty() =~= nat_view(out@));
    Some(out)
}

/// A turn of the small letters of one character never moves the position
/// back, nor past the end of `want`.
pub proof fn lemma_advance_bounds(want: Seq<char>, at: nat, lcs: Seq<char>)
    requires
        at <= want.len(),
    ensures
        at <= advance(want, at, lcs) <= want.len(),
    decreases lcs.len(),
{
    if lcs.len() > 0 {
        let next = if at < want.len() && want[at as int] == lcs[0] { at + 1 } else { at };
        lemma_advance_bounds(want, next, lcs.drop_first());
    }
}

/// Taking the wanted characters greedily from a part of the text loses no
/// match: what is left of `want` occurs in the rest of the text exactly when
/// the whole of it occurred in the part and the rest.
pub proof fn lemma_advance_in_order(want: Seq<char>, at: nat, lcs: Seq<char>, rest: Seq<char>)
    requires
        at <= want.len(),
    ensures
        in_order(want.skip(at as int), lcs + rest) == in_order(
            want.skip(advance(want, at, lcs) as int),
            rest,
        ),
    decreases lcs.len(),
{
    if lcs.len() == 0 {
        assert(lcs + rest =~= rest);
    } else {
        assert((lcs + rest).drop_first() =~= lcs.drop_first() + rest);
        assert((lcs + rest)[0] == lcs[0]);
        if at < want.len() && want[at as int] == lcs[0] {
            assert(want.skip(at as int).drop_first() =~= want.skip(at as int + 1));
            assert(want.skip(at as int)[0] == want[at as int]);
            lemma_advance_in_order(want, at + 1, lcs.drop_first(), rest);
        } else {
            if at < want.len() {
                assert(want.skip(at as int)[0] == want[at as int]);
            }
            lemma_advance_in_order(want, at, lcs.drop_first(), rest);
        }
    }
}

/// The walk matches the whole of `want` exactly when the rest of `want`
/// occurs, in order, in the small letters of the characters of the text.
pub proof fn lemma_positions_in_order(want: Seq<char>, hay: Seq<char>, at: nat, byte: nat)
    requires
        at < want.len(),
    ensures
        reaches(want, hay, at) <==> in_order(want.skip(at as int), lower_each(hay)),
    decreases hay.len(),
{
    if hay.len() == 0 {
        assert(lower_each(hay) =~= Seq::<char>::empty());
        assert(want.skip(at as int).len() > 0);
    } else {
        let next = advance(want, at, lower_char(hay[0]));
        lemma_advance_bounds(want, at, lower_char(hay[0]));
        lemma_advance_in_order(want, at, lower_char(hay[0]), lower_each(hay.drop_first()));
        if next < want.len() {
            lemma_positions_in_order(want, hay.drop_first(), next, byte + utf8_len(hay[0]));
        } else {
            assert(want.skip(next as int).len() == 0);
        }
    }
}

/// Gives `true` when a byte position of a text is the first byte of one of
/// its characters.
pub open spec fn char_start(hay: Seq<char>, p: int) -> bool {
    exists|m: int| 0 <= m < hay.len() && p == byte_len(#[trigger] hay.take(m))
}

/// The marks sit on the first bytes of characters of the text, after the
/// byte `byte`, each one after the one before it, and there are no more of
/// them than the characters of `want` that are left.
pub proof fn lemma_positions_are_char_starts(want: Seq<char>, hay: Seq<char>, at: nat, byte: nat)
    requires
        at <= want.len(),
    ensures
        forall|i: int|
            0 <= i < positions(want, hay, at, byte).len() ==> char_start(
                hay,
                #[trigger] positions(want, hay, at, byte)[i] - byte,
            ),
        forall|i: int|
            0 <= i < positions(want, hay, at, byte).len() ==> #[trigger] positions(want, hay, at, byte)[i]
                >= byte,
        forall|i: int, j: int|
            0 <= i < j < positions(want, hay, at, byte).len() ==> #[trigger] positions(want, hay, at, byte)[i]
                < #[trigger] positions(want, hay, at, byte)[j],
        positions(want, hay, at, byte).len() <= want.len() - at,
    decreases hay.len(),
{
    if hay.len() == 0 {
        return;
    }
    let v = positions(want, hay, at, byte);
    let next = advance(want, at, lower_char(hay[0]));
    lemma_advance_bounds(want, at, lower_char(hay[0]));
    let here = if next > at { seq![byte] } else { Seq::<nat>::empty() };
    assert(hay.take(0) =~= Seq::<char>::empty());
    assert(byte_len(hay.take(0)) == 0);
    if next >= want.len() {
        assert(v == here);
        assert(char_start(hay, 0));
    } else {
        let nb = byte + utf8_len(hay[0]);
        lemma_positions_are_char_starts(want, hay.drop_first(), next, nb);
        let r = positions(want, hay.drop_first(), next, nb);
        assert(v == here + r);
        assert forall|i: int| 0 <= i < v.len() implies char_start(hay, #[trigger] v[i] - byte) by {
            if i < here.len() {
                assert(v[i] - byte == byte_len(hay.take(0)));
            } else {
                let k = i - here.len();
                assert(v[i] == r[k]);
                assert(char_start(hay.drop_first(), r[k] - nb));
                let m = choose|m: int|
                    0 <= m < hay.drop_first().len() && r[k] - nb == byte_len(
                        #[trigger] hay.drop_first().take(m),
                    );
                assert(hay.take(m + 1) =~= seq![hay[0]] + hay.drop_first().take(m));
                crate::chars::lemma_byte_len_append(seq![hay[0]], hay.drop_first().take(m));
                assert(seq![hay[0]].drop_first() =~= Seq::<char>::empty());
                assert(byte_len(seq![hay[0]]) == utf8_len(hay[0]));
                assert(v[i] - byte == byte_len(hay.take(m + 1)));
            }
        }
        assert forall|i: int| 0 <= i < v.len() implies #[trigger] v[i] >= byte by {
            if i >= here.len() {
                assert(v[i] == r[i - here.len()]);
            }
        }
        assert forall|i: int, j: int| 0 <= i < j < v.len() implies #[trigger] v[i] < #[trigger] v[j] by {
            if j >= here.len() {
                assert(v[j] == r[j - here.len()]);
                if i >= here.len() {
                    assert(v[i] == r[i - here.len()]);
                }
            }
        }
    }
}

/// The palette marks characters exactly for the rows that its match keeps.
/// The marks sit on the first bytes of characters, in increasing order, and
/// there are no more of them than the characters that the query looks for.
/// For every text whose small letters are those of its characters one by
/// one, the walk through the text also matches the whole query.
pub proof fn marks_agree_with_the_match(needle: Seq<char>, hay: Seq<char>)
    ensures
        marks(needle, hay) is Some <==> fuzzy(needle, hay),
        marks(needle, hay) is Some ==> (forall|i: int|
            0 <= i < marks(needle, hay).unwrap().len() ==> char_start(
                hay,
                #[trigger] marks(needle, hay).unwrap()[i] as int,
            )),
        marks(needle, hay) is Some ==> (forall|i: int, j: int|
            0 <= i < j < marks(needle, hay).unwrap().len() ==> #[trigger] marks(
                needle,
                hay,
            ).unwrap()[i] < #[trigger] marks(needle, hay).unwrap()[j]),
        marks(needle, hay) is Some ==> marks(needle, hay).unwrap().len() <= wanted(needle).len(),
        (needle.len() > 0 && wanted(needle).len() > 0 && lower_text(hay) == lower_each(hay)) ==> (
        fuzzy(needle, hay) <==> reaches(wanted(needle), hay, 0)),
{
    let w = wanted(needle);
    if w.len() > 0 {
        lemma_positions_in_order(w, hay, 0, 0);
        assert(w.skip(0) =~= w);
        lemma_positions_are_char_starts(w, hay, 0, 0);
    }
}

/// Gives `true` when the palette keeps an entry of the table for a query: the
/// query matches the description or the group, or the label holds the
/// query without the white space at its ends.
pub open spec fn palette_keeps(q: Seq<char>, entry: (Seq<char>, Seq<char>, Seq<char>)) -> bool {
    fuzzy(q, entry.1) || fuzzy(q, entry.2) || holds_text(entry.0, trimmed(q))
}

/// The commands of the table from the position `i` on that the palette keeps
/// for a query, in the order of the table.
pub open spec fn palette_from(q: Seq<char>, i: int) -> Seq<Cmd>
    decreases text_table().len() - i,
{
    if i < 0 || i >= text_table().len() {
        Seq::empty()
    } else if palette_keeps(q, text_table()[i]) {
        seq![key_table()[i].0] + palette_from(q, i + 1)
    } else {
        palette_from(q, i + 1)
    }
}

/// The palette from the position `i` on holds the command of each later
/// entry that matches the query, and only such commands.
proof fn lemma_palette_from(q: Seq<char>, i: int)
    requires
        0 <= i <= text_table().len(),
    ensures
        forall|j: int|
            i <= j < text_table().len() && (fuzzy(q, #[trigger] text_table()[j].1) || fuzzy(q, text_table()[j].2)
                || holds_text(text_table()[j].0, trimmed(q))) ==> palette_from(q, i).contains(key_table()[j].0),
        forall|x: Cmd|
            palette_from(q, i).contains(x) ==> exists|j: int|
                i <= j < text_table().len() && #[trigger] key_table()[j].0 == x && (fuzzy(q, text_table()[j].1)
                    || fuzzy(q, text_table()[j].2) || holds_text(text_table()[j].0, trimmed(q))),
    decreases text_table().len() - i,
{
    if i < text_table().len() {
        lemma_palette_from(q, i + 1);
        let rest = palette_from(q, i + 1);
        if palette_keeps(q, text_table()[i]) {
            let all = seq![key_table()[i].0] + rest;
            assert(palette_from(q, i) == all);
            assert(all[0] == key_table()[i].0);
            assert forall|j: int|
                i <= j < text_table().len() && (fuzzy(q, #[trigger] text_table()[j].1) || fuzzy(q, text_table()[j].2)
                    || holds_text(text_table()[j].0, trimmed(q))) implies all.contains(key_table()[j].0) by {
                if j > i {
                    let k = choose|k: int| 0 <= k < rest.len() && rest[k] == key_table()[j].0;
                    assert(all[k + 1] == rest[k]);
                }
            }
            assert forall|x: Cmd| all.contains(x) implies exists|j: int|
                i <= j < text_table().len() && #[trigger] key_table()[j].0 == x && (fuzzy(q, text_table()[j].1)
                    || fuzzy(q, text_table()[j].2) || holds_text(text_table()[j].0, trimmed(q))) by {
                let k = choose|k: int| 0 <= k < all.len() && all[k] == x;
                if k > 0 {
                    assert(rest[k - 1] == x);
                    assert(rest.contains(x));
                } else {
                    assert(key_table()[i].0 == x);
                }
            }
        }
    }
}

/// The palette keeps each command whose description or group the query
/// matches, and each command that it keeps is one whose description or group
/// the query matches, or whose keys hold the query.
pub proof fn the_palette_keeps_each_match(q: Seq<char>)
    ensures
        forall|i: int|
            0 <= i < text_table().len() && (fuzzy(q, #[trigger] text_table()[i].1) || fuzzy(q, text_table()[i].2))
                ==> palette_from(q, 0).contains(key_table()[i].0),
        forall|x: Cmd|
            palette_from(q, 0).contains(x) ==> exists|i: int|
                0 <= i < text_table().len() && #[trigger] key_table()[i].0 == x && (fuzzy(q, text_table()[i].1)
                    || fuzzy(q, text_table()[i].2) || holds_text(text_table()[i].0, trimmed(q))),
{
    crate::commands::lemma_groups_in_blocks();
    lemma_palette_from(q, 0);
}

/// Gives each command that matches the text in the palette, in the order of
/// the table.
pub fn palette_items(query: &str) -> (r: Vec<Cmd>)
    ensures
        r@ == palette_from(query@, 0),
        forall|i: int|
            0 <= i < text_table().len() && (fuzzy(query@, #[trigger] text_table()[i].1) || fuzzy(query@, text_table()[i].2))
                ==> r@.contains(key_table()[i].0),
        forall|x: Cmd|
            r@.contains(x) ==> exists|i: int|
                0 <= i < text_table().len() && #[trigger] key_table()[i].0 == x && (fuzzy(query@, text_table()[i].1)
                    || fuzzy(query@, text_table()[i].2) || holds_text(text_table()[i].0, trimmed(query@))),
{
    proof {
        the_palette_keeps_each_match(query@);
    }
    let table = bindings();
    let tq = trimmed_chars(query);
    let mut out: Vec<Cmd> = Vec::new();
    let mut i: usize = 0;
    assert(key_table().len() == text_table().len());
    while i < table.len()
        invariant
            i <= table@.len() == text_table().len() == key_table().len(),
            keys_of(table@) == key_table(),
            texts_of(table@) == text_table(),
            tq@ == trimmed(query@),
            out@ + palette_from(query@, i as int) == palette_from(query@, 0),
        decreases table@.len() - i,
    {
        let b = &table[i];
        assert(texts_of(table@)[i as int] == (b.label@, b.desc@, b.group@));
        assert(keys_of(table@)[i as int].0 == b.cmd);
        let label = chars_of(b.label);
        let keep = fuzzy_match(query, b.desc) || fuzzy_match(query, b.group) || contains_chars(&label, &tq);
        let ghost before = out@;
        if keep {
            out.push(b.cmd);
            proof {
                vstd::seq_lib::lemma_concat_associative(before, seq![b.cmd], palette_from(query@, i + 1));
                assert(out@ =~= before + seq![b.cmd]);
            }
        }
        i += 1;
    }
    assert(palette_from(query@, i as int) =~= Seq::<Cmd>::empty());
    assert(out@ + Seq::<Cmd>::empty() =~= out@);
    out
}

/// One row of the palette on the screen.
///
/// The palette groups the full list under headings, so a row is not always a
/// command. A command therefore carries its own position in the list of
/// matches: the selection counts commands, and not rows.
#[derive(Clone, Copy, Debug, PartialEq, Eq)]
pub enum PaletteRow {
    /// An empty row in front of a heading.
    Blank,
    /// The name of a group.
    Head(&'static str),
    /// One command, with its position in the list of matches.
    Item(usize, Cmd),
}

/// The rows of the palette as values: a blank row, a heading with its
/// text, or a command with its position.
pub enum RowView {
    Blank,
    Head(Seq<char>),
    Item(nat, Cmd),
}

/// The value of one row.
pub open spec fn row_view(r: PaletteRow) -> RowView {
    match r {
        PaletteRow::Blank => RowView::Blank,
        PaletteRow::Head(g) => RowView::Head(g@),
        PaletteRow::Item(i, c) => RowView::Item(i as nat, c),
    }
}

/// The group of a command in the table.
pub open spec fn group_of(cmd: Cmd) -> Option<Seq<char>> {
    match entry_of(key_table(), cmd, 0) {
        Some(i) => Some(text_table()[i].2),
        None => None,
    }
}

/// The rows for the commands `items` from the position `i` on, when the
/// group of the row before is `group` and `started` says that a row came
/// before: with `grouped`, a heading comes in front of each change of group,
/// and an empty row in front of each heading but the first.
pub open spec fn rows_from(items: Seq<Cmd>, grouped: bool, i: int, group: Seq<char>, started: bool) -> Seq<RowView>
    decreases items.len() - i,
{
    if i < 0 || i >= items.len() {
        Seq::empty()
    } else {
        match group_of(items[i]) {
            None => rows_from(items, grouped, i + 1, group, started),
            Some(g) => if grouped && g != group {
                let head = if started { seq![RowView::Blank, RowView::Head(g)] } else { seq![RowView::Head(g)] };
                head + seq![RowView::Item(i as nat, items[i])] + rows_from(items, grouped, i + 1, g, true)
            } else {
                seq![RowView::Item(i as nat, items[i])] + rows_from(items, grouped, i + 1, group, true)
            },
        }
    }
}

/// Gives the rows of the palette for a list of matches.
///
/// The rows come from the list of matches in its own order, because the up
/// key and the down key walk that order. With `grouped`, a heading comes in
/// front of each change of group, so the order stays and the eye still sees
/// the families.
pub fn palette_rows(items: &[Cmd], grouped: bool) -> (r: Vec<PaletteRow>)
    ensures
        r@.map_values(|x: PaletteRow| row_view(x)) == rows_from(items@, grouped, 0, ""@, false),
{
    let mut rows: Vec<PaletteRow> = Vec::new();
    let mut group: &'static str = "";
    let mut i: usize = 0;
    assert(rows@.map_values(|x: PaletteRow| row_view(x)) =~= Seq::<RowView>::empty());
    while i < items.len()
        invariant
            i <= items@.len(),
            rows@.map_values(|x: PaletteRow| row_view(x)) + rows_from(
                items@,
                grouped,
                i as int,
                group@,
                rows@.len() > 0,
            ) == rows_from(items@, grouped, 0, ""@, false),
        decreases items@.len() - i,
    {
        let ghost before = rows@.map_values(|x: PaletteRow| row_view(x));
        let ghost started = rows@.len() > 0;
        let ghost old_group = group@;
        let cmd = items[i];
        match binding(cmd) {
            None => {
                assert(group_of(cmd) is None);
            },
            Some(b) => {
                let g = b.group;
                assert(group_of(cmd) == Some(g@));
                let ghost added: Seq<RowView>;
                if grouped && !crate::chars::same_str(g, group) {
                    if rows.len() > 0 {
                        rows.push(PaletteRow::Blank);
                    }
                    rows.push(PaletteRow::Head(g));
                    group = g;
                    proof {
                        added = if started { seq![RowView::Blank, RowView::Head(g@)] } else { seq![RowView::Head(g@)] };
                    }
                } else {
                    proof {
                        added = Seq::empty();
                    }
                }
                rows.push(PaletteRow::Item(i, cmd));
                proof {
                    let item = seq![RowView::Item(i as nat, cmd)];
                    let after = rows@.map_values(|x: PaletteRow| row_view(x));
                    assert(after =~= before + added + item);
                    let tail = rows_from(items@, grouped, i + 1, group@, true);
                    if grouped && g@ != old_group {
                        assert(rows_from(items@, grouped, i as int, old_group, started) == added + item + tail);
                    } else {
                        assert(added =~= Seq::<RowView>::empty());
                        assert(rows_from(items@, grouped, i as int, old_group, started) == item + tail);
                    }
                    vstd::seq_lib::lemma_concat_associative(before, added + item, tail);
                    vstd::seq_lib::lemma_concat_associative(before, added, item);
                }
            },
        }
        i += 1;
    }
    assert(rows@.map_values(|x: PaletteRow| row_view(x)) + Seq::<RowView>::empty()
        =~= rows@.map_values(|x: PaletteRow| row_view(x)));
    rows
}

/// The commands of a list of rows, with their positions, in the order of the
/// rows.
pub open spec fn items_of(rs: Seq<RowView>) -> Seq<(nat, Cmd)>
    decreases rs.len(),
{
    if rs.len() == 0 {
        Seq::empty()
    } else {
        match rs[0] {
            RowView::Item(i, c) => seq![(i, c)] + items_of(rs.drop_first()),
            _ => items_of(rs.drop_first()),
        }
    }
}

/// The commands of two lists of rows are those of the first and then those of
/// the second.
pub proof fn lemma_items_of_append(a: Seq<RowView>, b: Seq<RowView>)
    ensures
        items_of(a + b) == items_of(a) + items_of(b),
    decreases a.len(),
{
    if a.len() == 0 {
        assert(a + b =~= b);
        assert(items_of(a) + items_of(b) =~= items_of(b));
    } else {
        assert((a + b).drop_first() =~= a.drop_first() + b);
        lemma_items_of_append(a.drop_first(), b);
        match a[0] {
            RowView::Item(i, c) => {
                vstd::seq_lib::lemma_concat_associative(seq![(i, c)], items_of(a.drop_first()), items_of(b));
            },
            _ => {},
        }
    }
}

/// The commands of the list from the position `i` on, each with its
/// position.
pub open spec fn numbered(items: Seq<Cmd>, i: int) -> Seq<(nat, Cmd)>
    decreases items.len() - i,
{
    if i < 0 || i >= items.len() {
        Seq::empty()
    } else {
        seq![(i as nat, items[i])] + numbered(items, i + 1)
    }
}

/// The rows of the palette hold each command of the list exactly once, in
/// the order of the list and with its position in it, whether the list is
/// grouped or not: a heading and an empty row are never a command.
pub proof fn the_rows_hold_each_match_once(items: Seq<Cmd>, grouped: bool, i: int, group: Seq<char>, started: bool)
    requires
        0 <= i,
    ensures
        items_of(rows_from(items, grouped, i, group, started)) == numbered(items, i),
    decreases items.len() - i,
{
    if i < items.len() {
        crate::commands::every_command_has_an_entry(items[i]);
        let g = group_of(items[i]).unwrap();
        let item = seq![RowView::Item(i as nat, items[i])];
        if grouped && g != group {
            the_rows_hold_each_match_once(items, grouped, i + 1, g, true);
            let head = if started { seq![RowView::Blank, RowView::Head(g)] } else { seq![RowView::Head(g)] };
            let tail = rows_from(items, grouped, i + 1, g, true);
            lemma_items_of_append(head + item, tail);
            lemma_items_of_append(head, item);
            assert(items_of(head) =~= Seq::<(nat, Cmd)>::empty()) by {
                let e = Seq::<RowView>::empty();
                assert(items_of(e) == Seq::<(nat, Cmd)>::empty());
                if started {
                    let h1 = head.drop_first();
                    assert(h1 =~= seq![RowView::Head(g)]);
                    assert(h1.drop_first() =~= e);
                    assert(items_of(h1) == items_of(h1.drop_first()));
                    assert(items_of(head) == items_of(h1));
                } else {
                    assert(head.drop_first() =~= e);
                    assert(items_of(head) == items_of(head.drop_first()));
                }
            }
            assert(item.drop_first() =~= Seq::<RowView>::empty());
            assert(items_of(item.drop_first()) == Seq::<(nat, Cmd)>::empty());
            assert(items_of(item) == seq![(i as nat, items[i])] + items_of(item.drop_first()));
            assert(items_of(item) =~= seq![(i as nat, items[i])]);
        } else {
            the_rows_hold_each_match_once(items, grouped, i + 1, group, true);
            let tail = rows_from(items, grouped, i + 1, group, true);
            lemma_items_of_append(item, tail);
            assert(item.drop_first() =~= Seq::<RowView>::empty());
            assert(items_of(item.drop_first()) == Seq::<(nat, Cmd)>::empty());
            assert(items_of(item) == seq![(i as nat, items[i])] + items_of(item.drop_first()));
            assert(items_of(item) =~= seq![(i as nat, items[i])]);
        }
    }
}

} // verus!

verus! {

/// The word for the family of a value, for the type column of the record
/// view.
pub open spec fn family_text(kind: crate::tree::NodeKind, family: crate::tree::Family) -> Seq<char> {
    match kind {
        crate::tree::NodeKind::Object(_) => "struct"@,
        crate::tree::NodeKind::Array(_) => "list"@,
        crate::tree::NodeKind::Leaf => match family {
            crate::tree::Family::Null => "null"@,
            crate::tree::Family::Empty | crate::tree::Family::Text => "text"@,
            crate::tree::Family::Number => "number"@,
            crate::tree::Family::Bool => "boolean"@,
            crate::tree::Family::Nested => "struct"@,
        },
    }
}

/// Gives the word for the family of a value, for the type column.
pub fn family_word(line: &crate::tree::Line) -> (r: &'static str)
    ensures
        r@ == family_text(line.kind, line.family),
{
    match line.kind {
        NodeKind::Object(_) => "struct",
        NodeKind::Array(_) => "list",
        NodeKind::Leaf => match line.family {
            Family::Null => "null",
            Family::Empty | Family::Text => "text",
            Family::Number => "number",
            Family::Bool => "boolean",
            Family::Nested => "struct",
        },
    }
}

} // verus!

verus! {

/// The lines of the help for one group of the table of commands: an empty
/// line, the name of the group as a heading, and each command of the group in
/// the order of the table, with its keys and what it does.
pub open spec fn help_group(
    texts: Seq<(Seq<char>, Seq<char>, Seq<char>)>,
    g: Seq<char>,
) -> Seq<(Seq<char>, Seq<char>, bool)> {
    seq![(Seq::<char>::empty(), Seq::<char>::empty(), false), (g, Seq::<char>::empty(), true)] + texts.filter(
        |t: (Seq<char>, Seq<char>, Seq<char>)| in_group(t, g),
    ).map_values(|t: (Seq<char>, Seq<char>, Seq<char>)| help_line(t))
}

/// Gives `true` for a command of a group.
pub open spec fn in_group(t: (Seq<char>, Seq<char>, Seq<char>), g: Seq<char>) -> bool {
    t.2 == g
}

/// The line of the help for a command: its keys and what it does.
pub open spec fn help_line(t: (Seq<char>, Seq<char>, Seq<char>)) -> (Seq<char>, Seq<char>, bool) {
    (t.0, t.1, false)
}

/// The lines of the help for each group in turn.
pub open spec fn help_groups(
    texts: Seq<(Seq<char>, Seq<char>, Seq<char>)>,
    gs: Seq<Seq<char>>,
) -> Seq<(Seq<char>, Seq<char>, bool)>
    decreases gs.len(),
{
    if gs.len() == 0 {
        Seq::empty()
    } else {
        help_groups(texts, gs.drop_last()) + help_group(texts, gs.last())
    }
}

/// The lines of the help after the commands: the keys of each prompt, the
/// mouse, the marks of the column types, and two notes.
pub open spec fn help_tail() -> Seq<(Seq<char>, Seq<char>, bool)> {
    seq![
        (""@, ""@, false),
        ("In any prompt"@, ""@, true),
        ("Enter"@, "apply"@, false),
        ("Esc"@, "cancel"@, false),
        ("↑ / ↓"@, "previous / next entry from history"@, false),
        ("^W / ^U / ^K"@, "delete word / to start / to end"@, false),
        ("^A / ^E"@, "start / end of line"@, false),
        ("^← / ^→"@, "one word left / right; Alt+←/→, Alt+B, Alt+F do the same"@, false),
        ("^Backspace"@, "delete the word in front; Alt+Backspace is the same"@, false),
        ("^Delete"@, "delete the word after; Alt+D is the same"@, false),
        (""@, ""@, false),
        ("Mouse"@, ""@, true),
        ("wheel"@, "up and down the rows"@, false),
        ("Shift + wheel"@, "across the columns"@, false),
        ("wheel sideways"@, "the same as Shift and the wheel"@, false),
        ("click"@, "put the cursor on that cell"@, false),
        ("double click"@, "open that row as a record, as r does"@, false),
        ("click a name"@, "go to that column; a click never sorts"@, false),
        ("wheel, overlay"@, "move the selection of the overlay"@, false),
        ("click, overlay"@, "select that line; on a value, open or close it"@, false),
        ("double, overlay"@, "open, run or apply, as Enter does"@, false),
        ("click outside"@, "close the overlay, as Esc does"@, false),
        ("--no-mouse"@, "start with no mouse, so the terminal selects text"@, false),
        ("mouse = false"@, "the same, in the settings file"@, false),
        (""@, ""@, false),
        ("Column types — the dim mark after a column name"@, ""@, true),
        ("#"@, "number: an integer, a decimal or a float"@, false),
        ("\""@, "text"@, false),
        ("?"@, "boolean: true or false"@, false),
        ("@"@, "date, time, timestamp or interval"@, false),
        ("~"@, "binary, such as BLOB"@, false),
        ("{"@, "structure, list or map"@, false),
        (""@, ""@, false),
        ("Notes"@, ""@, true),
        ("read-only"@, "queries that would write are rejected before they run"@, false),
        ("clipboard"@, "uses OSC 52, so copying works over SSH too"@, false)
    ]
}

/// The lines of the help: the commands from the same table that gives the
/// command for a key, group by group, and then [`help_tail`].
pub open spec fn help_text() -> Seq<(Seq<char>, Seq<char>, bool)> {
    help_groups(text_table(), seq!["Move"@, "Query"@, "Inspect"@, "Columns"@, "Other"@]) + help_tail()
}

/// The values of the lines of the help.
pub open spec fn help_view(ls: Seq<(String, String, bool)>) -> Seq<(Seq<char>, Seq<char>, bool)> {
    ls.map_values(|l: (String, String, bool)| (l.0@, l.1@, l.2))
}

/// Gives the lines of the help after the commands.
fn help_tail_lines() -> (r: Vec<(String, String, bool)>)
    ensures
        help_view(r@) == help_tail(),
{
    let fixed: Vec<(&str, &str, bool)> = vec![
        ("", "", false),
        ("In any prompt", "", true),
        ("Enter", "apply", false),
        ("Esc", "cancel", false),
        ("↑ / ↓", "previous / next entry from history", false),
        ("^W / ^U / ^K", "delete word / to start / to end", false),
        ("^A / ^E", "start / end of line", false),
        ("^← / ^→", "one word left / right; Alt+←/→, Alt+B, Alt+F do the same", false),
        ("^Backspace", "delete the word in front; Alt+Backspace is the same", false),
        ("^Delete", "delete the word after; Alt+D is the same", false),
        ("", "", false),
        ("Mouse", "", true),
        ("wheel", "up and down the rows", false),
        ("Shift + wheel", "across the columns", false),
        ("wheel sideways", "the same as Shift and the wheel", false),
        ("click", "put the cursor on that cell", false),
        ("double click", "open that row as a record, as r does", false),
        ("click a name", "go to that column; a click never sorts", false),
        ("wheel, overlay", "move the selection of the overlay", false),
        ("click, overlay", "select that line; on a value, open or close it", false),
        ("double, overlay", "open, run or apply, as Enter does", false),
        ("click outside", "close the overlay, as Esc does", false),
        ("--no-mouse", "start with no mouse, so the terminal selects text", false),
        ("mouse = false", "the same, in the settings file", false),
        ("", "", false),
        ("Column types — the dim mark after a column name", "", true),
        ("#", "number: an integer, a decimal or a float", false),
        ("\"", "text", false),
        ("?", "boolean: true or false", false),
        ("@", "date, time, timestamp or interval", false),
        ("~", "binary, such as BLOB", false),
        ("{", "structure, list or map", false),
        ("", "", false),
        ("Notes", "", true),
        ("read-only", "queries that would write are rejected before they run", false),
        ("clipboard", "uses OSC 52, so copying works over SSH too", false)
    ];
    let mut out: Vec<(String, String, bool)> = Vec::new();
    let mut i: usize = 0;
    while i < fixed.len()
        invariant
            i <= fixed@.len(),
            help_view(out@) == fixed@.take(i as int).map_values(|l: (&str, &str, bool)| (l.0@, l.1@, l.2)),
        decreases fixed@.len() - i,
    {
        let (k, d, h) = fixed[i];
        let ghost before = out@;
        out.push((String::from_str(k), String::from_str(d), h));
        assert(help_view(out@) =~= help_view(before).push((k@, d@, h)));
        assert(fixed@.take(i + 1).map_values(|l: (&str, &str, bool)| (l.0@, l.1@, l.2)) =~= fixed@.take(
            i as int,
        ).map_values(|l: (&str, &str, bool)| (l.0@, l.1@, l.2)).push((k@, d@, h)));
        i += 1;
    }
    assert(fixed@.take(i as int) =~= fixed@);
    assert(help_view(out@) =~= help_tail());
    out
}

/// Gives the lines of the help for one group of the table.
fn help_group_lines(table: &Vec<Binding>, g: &str) -> (r: Vec<(String, String, bool)>)
    ensures
        help_view(r@) == help_group(texts_of(table@), g@),
{
    let mut out: Vec<(String, String, bool)> = Vec::new();
    out.push((String::new(), String::new(), false));
    out.push((String::from_str(g), String::new(), true));
    let ghost head = help_view(out@);
    assert(head =~= seq![(Seq::<char>::empty(), Seq::<char>::empty(), false), (g@, Seq::<char>::empty(), true)]);
    let mut i: usize = 0;
    while i < table.len()
        invariant
            i <= table@.len(),
            help_view(out@) == head + texts_of(table@.take(i as int)).filter(
                |t: (Seq<char>, Seq<char>, Seq<char>)| in_group(t, g@),
            ).map_values(|t: (Seq<char>, Seq<char>, Seq<char>)| help_line(t)),
        decreases table@.len() - i,
    {
        let b = &table[i];
        let ghost t = (b.label@, b.desc@, b.group@);
        proof {
            assert(texts_of(table@.take(i + 1)) =~= texts_of(table@.take(i as int)).push(t));
            texts_of(table@.take(i as int)).lemma_filter_push(t, |t: (Seq<char>, Seq<char>, Seq<char>)| in_group(t, g@));
        }
        if crate::chars::same_str(b.group, g) {
            let ghost before = help_view(out@);
            let ghost f = texts_of(table@.take(i as int)).filter(|t: (Seq<char>, Seq<char>, Seq<char>)| in_group(t, g@));
            let label = String::from_str(b.label);
            let desc = String::from_str(b.desc);
            assert(label@ == t.0 && desc@ == t.1);
            out.push((label, desc, false));
            assert(help_view(out@) =~= before.push(help_line(t)));
            assert(f.push(t).map_values(|t: (Seq<char>, Seq<char>, Seq<char>)| help_line(t)) =~= f.map_values(
                |t: (Seq<char>, Seq<char>, Seq<char>)| help_line(t),
            ).push(help_line(t)));
        }
        i += 1;
    }
    assert(table@.take(i as int) =~= table@);
    out
}

/// Gives the lines of the help: the keys of each command, from the same
/// table that gives the command for a key, so that the help and the keys
/// never disagree; then the keys of a prompt, the mouse, the marks of the
/// column types, and two notes. A heading has `true` as its third value.
pub fn help_lines() -> (r: Vec<(String, String, bool)>)
    ensures
        help_view(r@) == help_text(),
{
    let table = bindings();
    let gs = crate::commands::groups();
    let ghost gv = gs@.map_values(|g: &str| g@);
    let mut out: Vec<(String, String, bool)> = Vec::new();
    let mut i: usize = 0;
    assert(gv.take(0) =~= Seq::<Seq<char>>::empty());
    while i < gs.len()
        invariant
            i <= gs@.len(),
            gv == gs@.map_values(|g: &str| g@),
            texts_of(table@) == text_table(),
            help_view(out@) == help_groups(text_table(), gv.take(i as int)),
        decreases gs@.len() - i,
    {
        let mut part = help_group_lines(&table, gs[i]);
        let ghost before = help_view(out@);
        let ghost pv = help_view(part@);
        out.append(&mut part);
        assert(help_view(out@) =~= before + pv);
        assert(gv.take(i + 1).drop_last() =~= gv.take(i as int));
        i += 1;
    }
    assert(gv.take(i as int) =~= seq!["Move"@, "Query"@, "Inspect"@, "Columns"@, "Other"@]);
    let mut tail = help_tail_lines();
    let ghost before = help_view(out@);
    out.append(&mut tail);
    assert(help_view(out@) =~= before + help_tail());
    out
}

} // verus!

verus! {

/// A command of a group has its line in the lines of that group.
proof fn lemma_group_holds(t: Seq<(Seq<char>, Seq<char>, Seq<char>)>, g: Seq<char>, i: int)
    requires
        0 <= i < t.len(),
        t[i].2 == g,
    ensures
        help_group(t, g).contains(help_line(t[i])),
{
    let f = t.filter(|x: (Seq<char>, Seq<char>, Seq<char>)| in_group(x, g));
    t.lemma_filter_contains(|x: (Seq<char>, Seq<char>, Seq<char>)| in_group(x, g), i);
    let k = choose|k: int| 0 <= k < f.len() && f[k] == t[i];
    let m = f.map_values(|x: (Seq<char>, Seq<char>, Seq<char>)| help_line(x));
    assert(m[k] == help_line(t[i]));
    assert(help_group(t, g)[k + 2] == help_line(t[i]));
}

/// The lines of a list of groups hold the lines of each of them.
proof fn lemma_groups_hold(t: Seq<(Seq<char>, Seq<char>, Seq<char>)>, gs: Seq<Seq<char>>, b: int, x: (Seq<char>, Seq<char>, bool))
    requires
        0 <= b < gs.len(),
        help_group(t, gs[b]).contains(x),
    ensures
        help_groups(t, gs).contains(x),
    decreases gs.len(),
{
    let pre = help_groups(t, gs.drop_last());
    let last = help_group(t, gs.last());
    if b == gs.len() - 1 {
        let k = choose|k: int| 0 <= k < last.len() && last[k] == x;
        assert((pre + last)[pre.len() + k] == x);
    } else {
        assert(gs.drop_last()[b] == gs[b]);
        lemma_groups_hold(t, gs.drop_last(), b, x);
        let k = choose|k: int| 0 <= k < pre.len() && pre[k] == x;
        assert((pre + last)[k] == x);
    }
}

/// Each command of the table of keys has its line in the help, with its keys
/// and what it does: the help and the keys never disagree.
pub proof fn the_help_names_every_command(i: int)
    requires
        0 <= i < text_table().len(),
    ensures
        help_text().contains((text_table()[i].0, text_table()[i].1, false)),
{
    crate::commands::lemma_groups_in_blocks();
    let gs = seq!["Move"@, "Query"@, "Inspect"@, "Columns"@, "Other"@];
    let b = crate::commands::block_of(i);
    assert(gs == crate::commands::group_names());
    assert(text_table()[i].2 == gs[b]);
    lemma_group_holds(text_table(), gs[b], i);
    lemma_groups_hold(text_table(), gs, b, help_line(text_table()[i]));
    let h = help_groups(text_table(), gs);
    let k = choose|k: int| 0 <= k < h.len() && h[k] == help_line(text_table()[i]);
    assert((h + help_tail())[k] == help_line(text_table()[i]));
}

} // verus!
