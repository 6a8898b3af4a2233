//! The commands that change what the grid shows: the sort on the column of
//! the cursor, the widths of the columns, the hidden columns, and the row
//! that goes to the clipboard.

use vstd::prelude::*;

use crate::app::{MAX_COL_WIDTH, MIN_COL_WIDTH};
use crate::chars::{decimal, decimal_text, same_str};

verus! {

broadcast use vstd::string::group_string_axioms;

/// The sort after a press of `s` on the column `name`, when the view is
/// sorted first by `first` (a column, and `true` when it sorts down) or not
/// sorted: `Some(false)` sorts the column up, `Some(true)` down, and `None`
/// removes the sort.
///
/// The viewer sorts on one column at a time, and three presses give the
/// three states: up, down, and no sort. A press on another column than the
/// sorted one starts at up.
pub open spec fn sort_after(first: Option<(Seq<char>, bool)>, name: Seq<char>) -> Option<bool> {
    match first {
        Some((c, down)) => if c == name {
            if !down { Some(true) } else { None }
        } else {
            Some(false)
        },
        None => Some(false),
    }
}

/// The first key of the sort of a view after a sort on the column `name`.
pub open spec fn first_key(name: Seq<char>, s: Option<bool>) -> Option<(Seq<char>, bool)> {
    match s {
        Some(down) => Some((name, down)),
        None => None,
    }
}

/// Gives the sort after a press of `s`: refer to [`sort_after`].
pub fn next_sort(first: Option<(&str, bool)>, name: &str) -> (r: Option<bool>)
    ensures
        r == sort_after(
            match first {
                Some((c, d)) => Some((c@, d)),
                None => None,
            },
            name@,
        ),
{
    match first {
        Some((c, down)) => {
            if same_str(c, name) {
                if !down {
                    Some(true)
                } else {
                    None
                }
            } else {
                Some(false)
            }
        },
        None => Some(false),
    }
}

/// Three presses of `s` on one column come back: after the first press, the
/// sort of the column goes through up, down and no sort, and the fourth press
/// gives what the first one gave.
pub proof fn three_presses_come_back(first: Option<(Seq<char>, bool)>, name: Seq<char>)
    ensures
        ({
            let one = sort_after(first, name);
            let two = sort_after(first_key(name, one), name);
            let three = sort_after(first_key(name, two), name);
            let four = sort_after(first_key(name, three), name);
            &&& four == one
            &&& one != two && two != three && one != three
        }),
{
}

/// The widest width that the key `>` gives a column.
pub open spec fn widest() -> int {
    MAX_COL_WIDTH * 4
}

/// A width after the key `>`: four columns wider, up to four times the
/// largest width that a fit gives.
pub open spec fn widened(w: u16) -> u16 {
    if w + 4 <= widest() { (w + 4) as u16 } else { widest() as u16 }
}

/// A width after the key `<`: four columns narrower, down to the smallest
/// width of a column.
pub open spec fn narrowed(w: u16) -> u16 {
    let less: int = if w >= 4 { w - 4 } else { 0 };
    if less >= MIN_COL_WIDTH { less as u16 } else { MIN_COL_WIDTH }
}

/// Gives the width after the key `>`: refer to [`widened`].
pub fn widen(w: u16) -> (r: u16)
    requires
        w + 4 <= u16::MAX,
    ensures
        r == widened(w),
{
    let cap: u16 = MAX_COL_WIDTH * 4;
    if w + 4 <= cap { w + 4 } else { cap }
}

/// Gives the width after the key `<`: refer to [`narrowed`].
pub fn narrow(w: u16) -> (r: u16)
    ensures
        r == narrowed(w),
{
    let less = w.saturating_sub(4);
    if less >= MIN_COL_WIDTH { less } else { MIN_COL_WIDTH }
}

/// `<` undoes `>`: a column that `>` widened by four columns gets its width
/// back from `<`.
pub proof fn narrow_undoes_widen(w: u16)
    requires
        MIN_COL_WIDTH <= w,
        w + 4 <= widest(),
    ensures
        narrowed(widened(w)) == w,
{
}

/// The positions of the columns that are not hidden, among the first `k`.
pub open spec fn shown_upto(hidden: Seq<bool>, k: nat) -> Seq<usize>
    decreases k,
{
    if k == 0 {
        Seq::empty()
    } else if hidden[k - 1] {
        shown_upto(hidden, (k - 1) as nat)
    } else {
        shown_upto(hidden, (k - 1) as nat).push((k - 1) as usize)
    }
}

/// The positions of the columns that the grid shows, in their order.
pub open spec fn shown_columns(hidden: Seq<bool>) -> Seq<usize> {
    shown_upto(hidden, hidden.len())
}

/// Each position that [`shown_upto`] gives is a column that is not hidden,
/// and each such column is there.
pub proof fn lemma_shown_upto(hidden: Seq<bool>, k: nat)
    requires
        k <= hidden.len() <= usize::MAX,
    ensures
        forall|i: int| 0 <= i < shown_upto(hidden, k).len() ==> {
            &&& #[trigger] shown_upto(hidden, k)[i] < k
            &&& !hidden[shown_upto(hidden, k)[i] as int]
        },
        forall|c: int| 0 <= c < k && !hidden[c] ==> shown_upto(hidden, k).contains(c as usize),
        forall|i: int, j: int| 0 <= i < j < shown_upto(hidden, k).len() ==> shown_upto(hidden, k)[i] < shown_upto(hidden, k)[j],
    decreases k,
{
    if k > 0 {
        lemma_shown_upto(hidden, (k - 1) as nat);
        let before = shown_upto(hidden, (k - 1) as nat);
        let now = shown_upto(hidden, k);
        if !hidden[k - 1] {
            assert(now == before.push((k - 1) as usize));
            assert forall|i: int| 0 <= i < now.len() implies {
                &&& #[trigger] now[i] < k
                &&& !hidden[now[i] as int]
            } by {
                if i < before.len() {
                    assert(now[i] == before[i]);
                }
            }
            assert forall|i: int, j: int| 0 <= i < j < now.len() implies now[i] < now[j] by {
                assert(now[i] == before[i]);
                if j < before.len() {
                    assert(now[j] == before[j]);
                }
            }
            assert forall|c: int| 0 <= c < k && !hidden[c] implies now.contains(c as usize) by {
                if c < k - 1 {
                    assert(before.contains(c as usize));
                    let p = choose|p: int| 0 <= p < before.len() && before[p] == c as usize;
                    assert(now[p] == c as usize);
                } else {
                    assert(now[before.len() as int] == c as usize);
                }
            }
        } else {
            assert(now == before);
            assert forall|i: int| 0 <= i < now.len() implies {
                &&& #[trigger] now[i] < k
                &&& !hidden[now[i] as int]
            } by {
                assert(now[i] == before[i]);
            }
            assert forall|c: int| 0 <= c < k && !hidden[c] implies now.contains(c as usize) by {
                assert(before.contains(c as usize));
            }
        }
    }
}

/// Gives the positions of the columns that the grid shows: refer to
/// [`shown_columns`].
pub fn visible_columns(hidden: &Vec<bool>) -> (r: Vec<usize>)
    ensures
        r@ == shown_columns(hidden@),
{
    let mut out: Vec<usize> = Vec::new();
    let mut i: usize = 0;
    while i < hidden.len()
        invariant
            i <= hidden@.len(),
            out@ == shown_upto(hidden@, i as nat),
        decreases hidden@.len() - i,
    {
        if !hidden[i] {
            out.push(i);
        }
        i += 1;
    }
    out
}

/// The hidden columns after the key `x` on the column `cursor`, and the
/// column of the cursor after it, or the message when the column is the
/// last one that the grid shows.
///
/// The cursor stays on its column when the grid still shows it, and goes to
/// the last column that the grid shows otherwise.
pub open spec fn hidden_after(hidden: Seq<bool>, cursor: usize) -> Result<(Seq<bool>, usize), Seq<char>> {
    if shown_columns(hidden).len() <= 1 {
        Err("cannot hide the last visible column"@)
    } else {
        let now = hidden.update(cursor as int, true);
        let vis = shown_columns(now);
        Ok((now, if vis.contains(cursor) { cursor } else { vis.last() }))
    }
}

/// Hides the column of the cursor: refer to [`hidden_after`]. Gives the
/// column of the cursor after it.
pub fn hide_column(hidden: &mut Vec<bool>, cursor: usize) -> (r: Result<usize, &'static str>)
    requires
        cursor < old(hidden)@.len(),
    ensures
        match hidden_after(old(hidden)@, cursor) {
            Ok((now, c)) => final(hidden)@ == now && r == Ok::<usize, &'static str>(c),
            Err(m) => final(hidden)@ == old(hidden)@ && r is Err && m == r->Err_0@,
        },
{
    let n = hidden.len();
    let vis = visible_columns(hidden);
    if vis.len() <= 1 {
        return Err("cannot hide the last visible column");
    }
    hidden.set(cursor, true);
    let vis = visible_columns(hidden);
    let mut k: usize = 0;
    let mut found = false;
    while k < vis.len()
        invariant
            k <= vis@.len(),
            found == exists|j: int| 0 <= j < k && vis@[j] == cursor,
        decreases vis@.len() - k,
    {
        if vis[k] == cursor {
            found = true;
        }
        k += 1;
    }
    assert(found == vis@.contains(cursor));
    if found {
        Ok(cursor)
    } else {
        proof {
            assert(old(hidden)@.len() == n && hidden@.len() == n);
            lemma_shown_upto(hidden@, hidden@.len());
            // The column of the cursor is hidden now, so the other column
            // that the grid showed before is still shown.
            let before = shown_columns(old(hidden)@);
            lemma_shown_upto(old(hidden)@, old(hidden)@.len());
            let other = if before[0] != cursor { before[0] } else { before[1] };
            assert(!old(hidden)@[other as int]);
            assert(hidden@[other as int] == old(hidden)@[other as int]);
            assert(vis@.contains(other));
        }
        Ok(vis[vis.len() - 1])
    }
}

/// After the key `x`, the grid still shows a column and the cursor is on
/// one of the columns that it shows.
pub proof fn the_cursor_stays_on_a_shown_column(hidden: Seq<bool>, cursor: usize)
    requires
        cursor < hidden.len() <= usize::MAX,
        hidden_after(hidden, cursor) is Ok,
    ensures
        ({
            let (now, c) = hidden_after(hidden, cursor)->Ok_0;
            &&& shown_columns(now).len() >= 1
            &&& shown_columns(now).contains(c)
            &&& !now[c as int]
        }),
{
    let now = hidden.update(cursor as int, true);
    lemma_shown_upto(hidden, hidden.len());
    lemma_shown_upto(now, now.len());
    let before = shown_columns(hidden);
    let other = if before[0] != cursor { before[0] } else { before[1] };
    assert(now[other as int] == hidden[other as int]);
    assert(shown_columns(now).contains(other));
    let vis = shown_columns(now);
    if !vis.contains(cursor) {
        assert(vis[vis.len() - 1] == vis.last());
    }
}

/// The number of hidden columns among the first `k`.
pub open spec fn hidden_count(hidden: Seq<bool>, k: nat) -> nat
    decreases k,
{
    if k == 0 {
        0
    } else {
        hidden_count(hidden, (k - 1) as nat) + if hidden[k - 1] { 1nat } else { 0nat }
    }
}

/// Shows each column again, and gives the message that counts the columns
/// that were hidden.
pub fn show_all_columns(hidden: &mut Vec<bool>) -> (r: String)
    ensures
        final(hidden)@.len() == old(hidden)@.len(),
        forall|i: int| 0 <= i < final(hidden)@.len() ==> !#[trigger] final(hidden)@[i],
        r@ == decimal(hidden_count(old(hidden)@, old(hidden)@.len())) + " column(s) shown"@,
{
    let mut n: u64 = 0;
    let mut i: usize = 0;
    while i < hidden.len()
        invariant
            i <= hidden@.len(),
            n == hidden_count(old(hidden)@, i as nat),
            hidden@.len() == old(hidden)@.len(),
            n <= i,
            forall|k: int| 0 <= k < i ==> !#[trigger] hidden@[k],
            forall|k: int| i <= k < hidden@.len() ==> hidden@[k] == old(hidden)@[k],
        decreases hidden@.len() - i,
    {
        if hidden[i] {
            n += 1;
        }
        hidden.set(i, false);
        i += 1;
    }
    let mut m = decimal_text(n);
    m.append(" column(s) shown");
    m
}

/// The line of a row on the clipboard: the values of the columns that the
/// grid shows, with a tab between two values, and a missing value as the
/// word `NULL`, which the viewer shows as a value of its own.
pub open spec fn row_text(cells: Seq<Option<Seq<char>>>) -> Seq<char>
    decreases cells.len(),
{
    if cells.len() == 0 {
        Seq::empty()
    } else {
        let last = match cells.last() {
            Some(t) => t,
            None => "NULL"@,
        };
        if cells.len() == 1 {
            last
        } else {
            row_text(cells.drop_last()) + "\t"@ + last
        }
    }
}

/// Gives the line of a row on the clipboard: refer to [`row_text`].
pub fn row_line(cells: &Vec<Option<String>>) -> (r: String)
    ensures
        r@ == row_text(
            cells@.map_values(
                |c: Option<String>|
                    match c {
                        Some(t) => Some(t@),
                        None => None,
                    },
            ),
        ),
{
    let ghost view = cells@.map_values(
        |c: Option<String>|
            match c {
                Some(t) => Some(t@),
                None => None,
            },
    );
    let mut out = String::new();
    let mut i: usize = 0;
    while i < cells.len()
        invariant
            i <= cells@.len(),
            view == cells@.map_values(
                |c: Option<String>|
                    match c {
                        Some(t) => Some(t@),
                        None => None,
                    },
            ),
            out@ == row_text(view.take(i as int)),
        decreases cells@.len() - i,
    {
        proof {
            assert(view.take(i + 1).drop_last() =~= view.take(i as int));
        }
        if i > 0 {
            out.append("\t");
        }
        match &cells[i] {
            Some(t) => out.append(t.as_str()),
            None => out.append("NULL"),
        }
        i += 1;
    }
    proof {
        assert(view.take(i as int) =~= view);
    }
    out
}

} // verus!
