//! The decisions of the statistics panel that need no engine: the note of a
//! column whose values each occur once, the width of the names beside the
//! bars, and the line of the lowest and the highest value under the
//! distribution.

use vstd::prelude::*;

use crate::chars::{chars_of, push_char, text_of_range, text_width};
use crate::text::{truncate, truncated, width};

verus! {

/// The columns of the bar of a frequent value.
pub const BAR_WIDTH: usize = 10;

/// The fewest columns that the name of a frequent value keeps.
pub const MIN_NAME_WIDTH: usize = 4;

/// Whether the panel says that each sampled value occurs once, in place of
/// a list of bars: the list holds values, and each count is 1 or less. In a
/// column of keys a row of full bars would show a frequency that the data
/// does not have.
pub open spec fn all_once(counts: Seq<u64>) -> bool {
    counts.len() > 0 && forall|i: int| 0 <= i < counts.len() ==> counts[i] <= 1
}

/// Gives `true` when the panel says that each sampled value occurs once:
/// refer to [`all_once`].
pub fn every_value_once(counts: &Vec<u64>) -> (r: bool)
    ensures
        r == all_once(counts@),
{
    if counts.len() == 0 {
        return false;
    }
    let mut i: usize = 0;
    while i < counts.len()
        invariant
            i <= counts@.len(),
            forall|k: int| 0 <= k < i ==> counts@[k] <= 1,
        decreases counts@.len() - i,
    {
        if counts[i] > 1 {
            return false;
        }
        i += 1;
    }
    true
}

/// The columns of the name of a frequent value: what the panel keeps after
/// the bar, the count and a space on each side of the bar, and never fewer
/// than [`MIN_NAME_WIDTH`].
pub open spec fn name_columns(inner: int, count_width: int) -> int {
    let rest = inner - (BAR_WIDTH + count_width + 2);
    if rest >= MIN_NAME_WIDTH { rest } else { MIN_NAME_WIDTH as int }
}

/// Gives the columns of the name of a frequent value in a panel of `inner`
/// columns, beside a count of `count_width` columns: refer to
/// [`name_columns`].
pub fn name_width(inner: usize, count_width: usize) -> (r: usize)
    requires
        count_width + BAR_WIDTH + 2 <= usize::MAX,
    ensures
        r == name_columns(inner as int, count_width as int),
{
    let used = BAR_WIDTH + count_width + 2;
    let rest = inner.saturating_sub(used);
    if rest >= MIN_NAME_WIDTH { rest } else { MIN_NAME_WIDTH }
}

/// A text without the characters `c` at its end.
pub open spec fn trim_end(s: Seq<char>, c: char) -> Seq<char>
    decreases s.len(),
{
    if s.len() > 0 && s.last() == c {
        trim_end(s.drop_last(), c)
    } else {
        s
    }
}

/// The length of a text without the characters `c` at its end.
fn trimmed_end(cs: &Vec<char>, to: usize, c: char) -> (r: usize)
    requires
        to <= cs@.len(),
    ensures
        r <= to,
        cs@.take(r as int) == trim_end(cs@.take(to as int), c),
    decreases to,
{
    if to > 0 && cs[to - 1] == c {
        proof {
            assert(cs@.take(to as int).drop_last() =~= cs@.take(to - 1));
        }
        trimmed_end(cs, to - 1, c)
    } else {
        to
    }
}

/// Gives a number without the zeros at the end of its decimals, and without
/// its point when no decimal stays: `1.500000` gives `1.5` and `2.000000`
/// gives `2`.
pub fn trim_number(s: &str) -> (r: String)
    ensures
        r@ == trim_end(trim_end(s@, '0'), '.'),
{
    let cs = chars_of(s);
    assert(cs@.take(cs@.len() as int) =~= cs@);
    let a = trimmed_end(&cs, cs.len(), '0');
    let b = trimmed_end(&cs, a, '.');
    assert(cs@.subrange(0, b as int) =~= cs@.take(b as int));
    text_of_range(cs.as_slice(), 0, b)
}

/// `n` spaces.
pub open spec fn spaces(n: nat) -> Seq<char> {
    Seq::new(n, |i: int| ' ')
}

/// The line under the distribution: the lowest value at the left and the
/// highest at the right of `w` columns, cut to `w` columns.
pub open spec fn range_text(lo: Seq<char>, hi: Seq<char>, w: nat) -> Seq<char> {
    let used: int = text_width(lo) + text_width(hi);
    let gap: nat = if w >= used { (w - used) as nat } else { 0 };
    truncated(lo + spaces(gap) + hi, w)
}

/// Gives the line under the distribution: refer to [`range_text`].
pub fn range_line(lo: &str, hi: &str, w: usize) -> (r: String)
    ensures
        r@ == range_text(lo@, hi@, w as nat),
{
    let wl = width(lo);
    let wh = width(hi);
    let gap: usize = match wl.checked_add(wh) {
        Some(used) => w.saturating_sub(used),
        None => 0,
    };
    let mut line = String::from_str(lo);
    let mut i: usize = 0;
    while i < gap
        invariant
            i <= gap,
            line@ == lo@ + spaces(i as nat),
        decreases gap - i,
    {
        push_char(&mut line, ' ');
        proof {
            assert(lo@ + spaces((i + 1) as nat) =~= (lo@ + spaces(i as nat)).push(' '));
        }
        i += 1;
    }
    line.append(hi);
    truncate(line.as_str(), w)
}

} // verus!
