//! The geometry of the grid and the rows of its detail band.
//!
//! The grid has a column of row numbers at the left, and then the columns of
//! the file, one screen column apart. It scrolls to the left and to the right
//! one column at a time, so that the column of the cursor is always on the
//! screen. The detail band sits under the column names and gives the facts of
//! each column.

use vstd::prelude::*;

use crate::app::{band_height, Band};
use crate::chars::{decimal, text_width};
use crate::text::{fit, fitted, sanitize, truncate, truncated, visible, width, Align};

verus! {

broadcast use vstd::string::group_string_axioms;

/// The number of screen columns between two columns of the grid.
pub const GAP: u16 = 1;

/// The width that a column of the schema gets on a screen with `avail`
/// columns for the data: its own width, but never the whole room, so that the
/// screen always shows where the next column starts.
pub open spec fn col_w(widths: Seq<u16>, ci: usize, avail: int) -> int {
    let cap = if avail - 1 >= 1 { avail - 1 } else { 1 };
    if widths[ci as int] <= cap { widths[ci as int] as int } else { cap }
}

/// The last visible column that fits when the grid starts at the column
/// `left`, packed from the position `n` on with `used` columns of the screen
/// taken and `last` the last column that fitted so far. The first column
/// always fits.
pub open spec fn packed_last(
    vis: Seq<usize>,
    widths: Seq<u16>,
    avail: int,
    left: int,
    n: int,
    used: int,
    last: int,
) -> int
    decreases vis.len() - n,
{
    if n >= vis.len() {
        last
    } else {
        let w = col_w(widths, vis[n], avail);
        if used + w > avail && n > left {
            last
        } else {
            packed_last(vis, widths, avail, left, n + 1, used + w + GAP, n)
        }
    }
}

/// The last visible column on the screen when the grid starts at `left`.
pub open spec fn reach(vis: Seq<usize>, widths: Seq<u16>, avail: int, left: int) -> int {
    packed_last(vis, widths, avail, left, left, 0, left)
}

/// The first column after the scroll: the grid moves one column to the right
/// at a time, until the column at the position `at` is on the screen.
pub open spec fn scrolled(vis: Seq<usize>, widths: Seq<u16>, avail: int, at: int, l: int) -> int
    decreases at - l,
{
    if at <= reach(vis, widths, avail, l) || l >= at {
        l
    } else {
        scrolled(vis, widths, avail, at, l + 1)
    }
}

/// The columns that the grid draws from the position `n` of the visible
/// columns on, with the next one at the screen column `x`: each one with its
/// position in the schema, its screen column and its width. The first one is
/// always drawn; a later one only when it ends inside the screen.
pub open spec fn placed(
    vis: Seq<usize>,
    widths: Seq<u16>,
    avail: int,
    width: int,
    n: int,
    x: int,
    first: bool,
) -> Seq<(usize, u16, u16)>
    decreases vis.len() - n,
{
    if n >= vis.len() || n < 0 {
        Seq::empty()
    } else {
        let w = col_w(widths, vis[n], avail);
        if x + w > width && !first {
            Seq::empty()
        } else {
            let here = seq![(vis[n], x as u16, w as u16)];
            if x + w + GAP >= width {
                here
            } else {
                here + placed(vis, widths, avail, width, n + 1, x + w + GAP, false)
            }
        }
    }
}

/// The position of a column in the list of the visible columns, from `i` on,
/// or 0 when the list does not hold it.
pub open spec fn index_in(vis: Seq<usize>, c: usize, i: int) -> int
    decreases vis.len() - i,
{
    if i >= vis.len() {
        0
    } else if vis[i] == c {
        i
    } else {
        index_in(vis, c, i + 1)
    }
}

/// The first column before the scroll: the one that the grid started at, kept
/// inside the list and never after the column of the cursor.
pub open spec fn start_left(old_left: int, at: int, len: int) -> int {
    let l = if old_left <= len - 1 { old_left } else { len - 1 };
    if at < l { at } else { l }
}

/// The columns that one frame of the grid draws.
pub struct Layout {
    /// The columns that the grid draws. Each entry holds the position of the
    /// column in the schema, its position on the screen, and its width.
    pub drawn: Vec<(usize, u16, u16)>,
    /// The width of the column of row numbers, in screen columns.
    pub gutter: u16,
}

/// Gives the width of a column of the schema on the screen.
fn col_width(widths: &[u16], ci: usize, avail: u16) -> (r: u16)
    requires
        ci < widths@.len(),
        avail >= 1,
    ensures
        r == col_w(widths@, ci, avail as int),
        1 <= avail ==> r <= (if avail - 1 >= 1 { avail - 1 } else { 1 }),
{
    let cap = if avail - 1 >= 1 { avail - 1 } else { 1 };
    if widths[ci] <= cap { widths[ci] } else { cap }
}

/// Gives the last visible column on the screen when the grid starts at
/// `left`.
fn reach_of(vis: &[usize], widths: &[u16], avail: u16, left: usize) -> (r: usize)
    requires
        left < vis@.len(),
        avail >= 1,
        forall|i: int| 0 <= i < vis@.len() ==> (#[trigger] vis@[i]) < widths@.len(),
    ensures
        r == reach(vis@, widths@, avail as int, left as int),
{
    let mut used: u32 = 0;
    let mut last: usize = left;
    let mut n: usize = left;
    while n < vis.len()
        invariant_except_break
            left <= n <= vis@.len(),
            n == left ==> used == 0 && last == left,
            n > left ==> used <= avail as int + 1 && last == n - 1,
            avail >= 1,
            forall|i: int| 0 <= i < vis@.len() ==> (#[trigger] vis@[i]) < widths@.len(),
            packed_last(vis@, widths@, avail as int, left as int, n as int, used as int, last as int)
                == reach(vis@, widths@, avail as int, left as int),
        ensures
            last == reach(vis@, widths@, avail as int, left as int),
        decreases vis@.len() - n,
    {
        let w = col_width(widths, vis[n], avail);
        if used + w as u32 > avail as u32 && n > left {
            break;
        }
        used = used + w as u32 + GAP as u32;
        last = n;
        n += 1;
    }
    last
}

/// Gives the columns that the grid draws from the column `left` on.
fn place(vis: &[usize], widths: &[u16], avail: u16, area_width: u16, left: usize, gutter: u16) -> (r: Vec<(usize, u16, u16)>)
    requires
        left < vis@.len(),
        avail >= 1,
        gutter + avail == area_width,
        forall|i: int| 0 <= i < vis@.len() ==> (#[trigger] vis@[i]) < widths@.len(),
    ensures
        r@ == placed(vis@, widths@, avail as int, area_width as int, left as int, gutter as int, true),
{
    let mut out: Vec<(usize, u16, u16)> = Vec::new();
    let mut x: u32 = gutter as u32;
    let mut n: usize = left;
    while n < vis.len()
        invariant_except_break
            left <= n <= vis@.len(),
            n == left ==> x == gutter && out@.len() == 0,
            x < area_width,
            avail >= 1,
            gutter + avail == area_width,
            forall|i: int| 0 <= i < vis@.len() ==> (#[trigger] vis@[i]) < widths@.len(),
            placed(vis@, widths@, avail as int, area_width as int, left as int, gutter as int, true)
                == out@ + placed(vis@, widths@, avail as int, area_width as int, n as int, x as int, n == left),
        ensures
            placed(vis@, widths@, avail as int, area_width as int, left as int, gutter as int, true) == out@,
        decreases vis@.len() - n,
    {
        let ci = vis[n];
        let w = col_width(widths, ci, avail);
        if x + w as u32 > area_width as u32 && n != left {
            assert(out@ + Seq::<(usize, u16, u16)>::empty() =~= out@);
            break;
        }
        let ghost before = out@;
        let ghost here = seq![(ci, x as u16, w)];
        out.push((ci, x as u16, w));
        let nx = x + w as u32 + GAP as u32;
        if nx >= area_width as u32 {
            assert(out@ =~= before + here);
            break;
        }
        proof {
            vstd::seq_lib::lemma_concat_associative(
                before,
                here,
                placed(vis@, widths@, avail as int, area_width as int, n + 1, nx as int, false),
            );
            assert(out@ =~= before + here);
        }
        x = nx;
        n += 1;
    }
    proof {
        if n >= vis.len() {
            assert(out@ + Seq::<(usize, u16, u16)>::empty() =~= out@);
        }
    }
    out
}

/// Scrolls the grid to the left or to the right until the cursor column is on
/// the screen. The function then gives the columns that fit.
///
/// `vis` holds the visible columns, as positions in the schema; `widths` holds
/// the width of each column of the schema; `left_col` is the position in `vis`
/// of the first column on the screen, which the scroll changes; `gutter` is the
/// width of the column of row numbers and `area_width` the width of the grid.
pub fn layout(
    left_col: &mut usize,
    vis: &[usize],
    widths: &[u16],
    cursor_col: usize,
    gutter: u16,
    area_width: u16,
) -> (r: Layout)
    requires
        forall|i: int| 0 <= i < vis@.len() ==> (#[trigger] vis@[i]) < widths@.len(),
    ensures
        r.gutter == gutter,
        ({
            let avail = if area_width >= gutter { area_width - gutter } else { 0 };
            if vis@.len() == 0 || avail == 0 {
                r.drawn@.len() == 0 && *final(left_col) == *old(left_col)
            } else {
                let at = index_in(vis@, cursor_col, 0);
                let l0 = start_left(*old(left_col) as int, at, vis@.len() as int);
                &&& *final(left_col) == scrolled(vis@, widths@, avail, at, l0)
                &&& r.drawn@ == placed(vis@, widths@, avail, area_width as int, *final(left_col) as int, gutter as int, true)
            }
        }),
{
    let avail: u16 = area_width.saturating_sub(gutter);
    if vis.len() == 0 || avail == 0 {
        return Layout { drawn: Vec::new(), gutter };
    }
    // The position of the cursor column in the list of visible columns.
    let mut cursor_at: usize = 0;
    let mut i: usize = 0;
    while i < vis.len()
        invariant_except_break
            i <= vis@.len(),
            vis@.len() > 0,
            cursor_at == 0,
            index_in(vis@, cursor_col, i as int) == index_in(vis@, cursor_col, 0),
        ensures
            cursor_at == index_in(vis@, cursor_col, 0),
            cursor_at < vis@.len(),
        decreases vis@.len() - i,
    {
        if vis[i] == cursor_col {
            cursor_at = i;
            break;
        }
        i += 1;
    }
    let mut left: usize = *left_col;
    if left > vis.len() - 1 {
        left = vis.len() - 1;
    }
    if cursor_at < left {
        left = cursor_at;
    }
    // Move the first column to the right until the cursor column fits.
    loop
        invariant_except_break
            left <= cursor_at < vis@.len(),
            avail >= 1,
            forall|i: int| 0 <= i < vis@.len() ==> (#[trigger] vis@[i]) < widths@.len(),
            scrolled(vis@, widths@, avail as int, cursor_at as int, left as int) == scrolled(
                vis@,
                widths@,
                avail as int,
                cursor_at as int,
                start_left(*old(left_col) as int, cursor_at as int, vis@.len() as int),
            ),
        ensures
            left == scrolled(
                vis@,
                widths@,
                avail as int,
                cursor_at as int,
                start_left(*old(left_col) as int, cursor_at as int, vis@.len() as int),
            ),
            left < vis@.len(),
        decreases cursor_at - left,
    {
        let last = reach_of(vis, widths, avail, left);
        if cursor_at <= last || left >= cursor_at {
            break;
        }
        left += 1;
    }
    *left_col = left;
    let drawn = place(vis, widths, avail, area_width, left, gutter);
    Layout { drawn, gutter }
}

/// Each visible column from `n` to the last one that the packing reaches is
/// also a column that the drawing places, when no column has the width 0.
proof fn lemma_pack_place(
    vis: Seq<usize>,
    widths: Seq<u16>,
    avail: int,
    g: int,
    l: int,
    n: int,
    used: int,
    last: int,
)
    requires
        avail >= 1,
        0 <= l <= n <= vis.len(),
        l < vis.len(),
        forall|i: int| 0 <= i < vis.len() ==> (#[trigger] vis[i]) < widths.len() && widths[vis[i] as int] >= 1,
        (n == l && used == 0 && last == l) || (n > l && last == n - 1 && 0 <= used < avail),
    ensures
        packed_last(vis, widths, avail, l, n, used, last) >= last,
        ({
            let p = placed(vis, widths, avail, g + avail, n, g + used, n == l);
            forall|m: int|
                n <= m <= packed_last(vis, widths, avail, l, n, used, last) ==> exists|k: int|
                    0 <= k < p.len() && (#[trigger] p[k]).0 == #[trigger] vis[m]
        }),
    decreases vis.len() - n,
{
    if n < vis.len() {
        let w = col_w(widths, vis[n], avail);
        assert(w >= 1);
        if !(used + w > avail && n > l) {
            let p = placed(vis, widths, avail, g + avail, n, g + used, n == l);
            assert(p[0].0 == vis[n]);
            if used + w + GAP >= avail {
                if n + 1 < vis.len() {
                    assert(col_w(widths, vis[n + 1], avail) >= 1);
                }
                assert(packed_last(vis, widths, avail, l, n + 1, used + w + GAP, n) == n);
                assert(packed_last(vis, widths, avail, l, n, used, last) == n);
            } else {
                lemma_pack_place(vis, widths, avail, g, l, n + 1, used + w + GAP, n);
                let rest = placed(vis, widths, avail, g + avail, n + 1, g + used + w + GAP, false);
                assert(p == seq![(vis[n], (g + used) as u16, w as u16)] + rest);
                assert forall|m: int|
                    n <= m <= packed_last(vis, widths, avail, l, n, used, last) implies exists|k: int|
                        0 <= k < p.len() && (#[trigger] p[k]).0 == #[trigger] vis[m] by {
                    if m == n {
                        assert(p[0].0 == vis[m]);
                    } else {
                        let k = choose|k: int| 0 <= k < rest.len() && (#[trigger] rest[k]).0 == vis[m];
                        assert(p[k + 1] == rest[k]);
                    }
                }
            }
        }
    }
}

/// The scroll stops at the column of the cursor at the latest, and where it
/// stops, the column of the cursor is on the screen or is the first column.
proof fn lemma_scrolled(vis: Seq<usize>, widths: Seq<u16>, avail: int, at: int, l: int)
    requires
        0 <= l <= at,
    ensures
        l <= scrolled(vis, widths, avail, at, l) <= at,
        at <= reach(vis, widths, avail, scrolled(vis, widths, avail, at, l)) || scrolled(
            vis,
            widths,
            avail,
            at,
            l,
        ) == at,
    decreases at - l,
{
    if !(at <= reach(vis, widths, avail, l) || l >= at) {
        lemma_scrolled(vis, widths, avail, at, l + 1);
    }
}

/// The position that `index_in` gives holds the column, when the list holds
/// it.
proof fn lemma_index_in(vis: Seq<usize>, c: usize, i: int)
    requires
        0 <= i,
        exists|j: int| i <= j < vis.len() && vis[j] == c,
    ensures
        i <= index_in(vis, c, i) < vis.len(),
        vis[index_in(vis, c, i)] == c,
    decreases vis.len() - i,
{
    if vis[i] != c {
        let j = choose|j: int| i <= j < vis.len() && vis[j] == c;
        assert(j > i);
        lemma_index_in(vis, c, i + 1);
    }
}

/// After the scroll, the grid draws the column of the cursor, whatever column
/// it started at, when the cursor is on a visible column and no column has
/// the width 0.
pub proof fn the_cursor_column_is_drawn(
    vis: Seq<usize>,
    widths: Seq<u16>,
    cursor_col: usize,
    old_left: usize,
    gutter: u16,
    area_width: u16,
)
    requires
        area_width > gutter,
        exists|j: int| 0 <= j < vis.len() && vis[j] == cursor_col,
        forall|i: int| 0 <= i < vis.len() ==> (#[trigger] vis[i]) < widths.len() && widths[vis[i] as int] >= 1,
    ensures
        ({
            let avail = area_width - gutter;
            let at = index_in(vis, cursor_col, 0);
            let l = scrolled(vis, widths, avail, at, start_left(old_left as int, at, vis.len() as int));
            let p = placed(vis, widths, avail, area_width as int, l, gutter as int, true);
            exists|k: int| 0 <= k < p.len() && (#[trigger] p[k]).0 == cursor_col
        }),
{
    let avail = area_width - gutter;
    lemma_index_in(vis, cursor_col, 0);
    let at = index_in(vis, cursor_col, 0);
    let l0 = start_left(old_left as int, at, vis.len() as int);
    lemma_scrolled(vis, widths, avail, at, l0);
    let l = scrolled(vis, widths, avail, at, l0);
    lemma_pack_place(vis, widths, avail, gutter as int, l, l, 0, l);
    assert(gutter + avail == area_width);
    let p = placed(vis, widths, avail, area_width as int, l, gutter as int, true);
    assert(p == placed(vis, widths, avail, gutter + avail, l, gutter + 0, l == l));
    assert(l <= at <= packed_last(vis, widths, avail, l, l, 0, l));
}

/// Each column that the drawing places from the screen column `x` on starts
/// at `x` or later and ends inside the grid.
proof fn lemma_placed_inside(
    vis: Seq<usize>,
    widths: Seq<u16>,
    avail: int,
    width: int,
    n: int,
    x: int,
    first: bool,
)
    requires
        avail >= 1,
        0 <= x < width <= u16::MAX,
        first ==> x + avail <= width,
    ensures
        ({
            let p = placed(vis, widths, avail, width, n, x, first);
            forall|k: int| 0 <= k < p.len() ==> x <= (#[trigger] p[k]).1 && p[k].1 + p[k].2 <= width
        }),
    decreases vis.len() - n,
{
    if 0 <= n < vis.len() {
        let w = col_w(widths, vis[n], avail);
        if !(x + w > width && !first) && x + w + GAP < width {
            lemma_placed_inside(vis, widths, avail, width, n + 1, x + w + GAP, false);
            let rest = placed(vis, widths, avail, width, n + 1, x + w + GAP, false);
            let p = placed(vis, widths, avail, width, n, x, first);
            assert(p == seq![(vis[n], x as u16, w as u16)] + rest);
            assert forall|k: int| 0 <= k < p.len() implies x <= (#[trigger] p[k]).1 && p[k].1 + p[k].2 <= width by {
                if k > 0 {
                    assert(p[k] == rest[k - 1]);
                }
            }
        }
    }
}

/// Each column that the grid draws lies inside the grid, after the column of
/// row numbers.
pub proof fn the_drawn_columns_stay_inside(
    vis: Seq<usize>,
    widths: Seq<u16>,
    left: int,
    gutter: u16,
    area_width: u16,
)
    requires
        area_width > gutter,
    ensures
        ({
            let p = placed(vis, widths, area_width - gutter, area_width as int, left, gutter as int, true);
            forall|k: int|
                0 <= k < p.len() ==> gutter <= (#[trigger] p[k]).1 && p[k].1 + p[k].2 <= area_width
        }),
{
    lemma_placed_inside(vis, widths, area_width - gutter, area_width as int, left, gutter as int, true);
}

/// Gives the number of rows of the detail band inside a grid of `height` rows.
///
/// The band gives its rows back to the data on a short terminal. One row goes
/// to the column names, and one row must stay for the data; and the data keeps
/// one half of the rows at the minimum, because the band is a summary of the
/// columns and must not become the main part of the screen.
pub fn band_rows(band: Band, height: u16) -> (r: u16)
    ensures
        ({
            let free: int = if height >= 1 { height - 1 } else { 0 };
            let keep: int = if free >= 1 { free - 1 } else { 0 };
            let a: int = if band_height(band) <= keep { band_height(band) as int } else { keep };
            r == if a <= free / 2 { a } else { free / 2 }
        }),
        r <= band_height(band),
        height >= 2 ==> height - 1 - r >= 1,
        2 * r <= (if height >= 1 { height - 1 } else { 0 }),
{
    let free = height.saturating_sub(1);
    let keep = free.saturating_sub(1);
    let a = if band.rows() <= keep { band.rows() } else { keep };
    if a <= free / 2 { a } else { free / 2 }
}

/// The number of decimal digits of a number.
pub fn digit_count(n: u64) -> (r: usize)
    ensures
        r == decimal(n as nat).len(),
        1 <= r <= 20,
{
    proof {
        reveal_with_fuel(pow10, 21);
        assert(pow10(20) == 100000000000000000000nat);
        lemma_decimal_len_bound(n as nat, 20);
        lemma_decimal_len(n as nat);
    }
    let mut m = n;
    let mut count: usize = 1;
    while m >= 10
        invariant
            count + decimal(m as nat).len() == decimal(n as nat).len() + 1,
            decimal(n as nat).len() <= 20,
            decimal(m as nat).len() >= 1,
        decreases m,
    {
        proof {
            lemma_decimal_len(m as nat);
            lemma_decimal_len((m / 10) as nat);
        }
        m = m / 10;
        count += 1;
    }
    count
}

/// A number has one decimal digit at least, and each division by ten takes
/// one of them away.
pub proof fn lemma_decimal_len(n: nat)
    ensures
        decimal(n).len() >= 1,
        n >= 10 ==> decimal(n).len() == decimal(n / 10).len() + 1,
    decreases n,
{
    if n >= 10 {
        lemma_decimal_len(n / 10);
    }
}

/// A number below ten to the power `k` has at most `k` digits.
pub proof fn lemma_decimal_len_bound(n: nat, k: nat)
    requires
        k >= 1,
        n < pow10(k),
    ensures
        decimal(n).len() <= k,
    decreases k,
{
    if n >= 10 {
        if k == 1 {
            assert(pow10(1) == 10 * pow10(0));
        }
        assert(pow10(k) == 10 * pow10((k - 1) as nat));
        assert(n / 10 < pow10((k - 1) as nat)) by (nonlinear_arith)
            requires
                n < pow10(k),
                pow10(k) == 10 * pow10((k - 1) as nat),
        ;
        lemma_decimal_len_bound(n / 10, (k - 1) as nat);
        lemma_decimal_len(n);
    }
}

/// Ten to the power `k`.
pub open spec fn pow10(k: nat) -> nat
    decreases k,
{
    if k == 0 { 1 } else { 10 * pow10((k - 1) as nat) }
}

/// The largest row number that the grid can show now: the number of rows of
/// the view, or while that count is unknown the last row of the screen, and
/// never less than the row of the cursor or than one.
pub open spec fn highest_row(total: Option<u64>, top_row: u64, viewport_rows: usize, cursor_row: u64) -> int {
    let sat = |a: int| if a > u64::MAX { u64::MAX as int } else { a };
    let base = match total {
        Some(n) => n as int,
        None => sat(top_row + viewport_rows),
    };
    let c = sat(cursor_row + 1);
    let h = if base >= c { base } else { c };
    if h >= 1 { h } else { 1 }
}

/// Gives the width for the column of row numbers: the digits of the largest
/// row number that the grid can show now, one column of space, and four
/// columns at the least.
///
/// Each addition saturates: while the count is unknown, the cursor can sit on
/// a very large row number, and the number after it does not fit in 64 bits.
pub fn gutter_width(total: Option<u64>, top_row: u64, viewport_rows: usize, cursor_row: u64) -> (r: u16)
    ensures
        r == (if decimal(highest_row(total, top_row, viewport_rows, cursor_row) as nat).len() + 1 >= 4 {
            decimal(highest_row(total, top_row, viewport_rows, cursor_row) as nat).len() + 1
        } else {
            4
        }),
{
    let base = match total {
        Some(n) => n,
        None => top_row.saturating_add(viewport_rows as u64),
    };
    let c = cursor_row.saturating_add(1);
    let h = if base >= c { base } else { c };
    let h = if h >= 1 { h } else { 1 };
    let d = digit_count(h) as u16 + 1;
    if d >= 4 { d } else { 4 }
}

/// The character that stands for a fact that has not arrived.
///
/// A blank cell would read as a zero, and a number from another view would be
/// a lie. The rows of data that are not in the page use the same character.
pub open spec fn waiting_text(w: nat) -> Seq<char> {
    fitted("·"@, w, Align::Left)
}

/// Builds a row for a fact that has not arrived.
pub fn waiting(w: usize) -> (r: String)
    ensures
        r@ == waiting_text(w as nat),
{
    fit("·", w, Align::Left)
}

/// A value with a word after it when the column is wide enough for both.
pub open spec fn with_word_text(value: Seq<char>, word: Seq<char>, w: nat) -> Seq<char> {
    let long = value + " "@ + word;
    if text_width(long) <= w { long } else { value }
}

/// Adds a word to a value when the column is wide enough for it.
///
/// A narrow column keeps the value and drops the word. A value with a cut
/// word, such as a share and the first letter of `null`, says less than the
/// value by itself.
pub fn with_word(value: &str, word: &str, w: usize) -> (r: String)
    ensures
        r@ == with_word_text(value@, word@, w as nat),
{
    let mut long = String::from_str(value);
    long.append(" ");
    long.append(word);
    if width(long.as_str()) <= w {
        long
    } else {
        String::from_str(value)
    }
}

/// The family of the values of a column.
#[derive(Clone, Copy, Debug, PartialEq, Eq, Structural)]
pub enum CellKind {
    /// An integer, a decimal or a float.
    Number,
    /// Text.
    Text,
    /// True or false.
    Bool,
    /// A date, a time, a timestamp or an interval.
    Temporal,
    /// Bytes, such as a BLOB.
    Binary,
    /// A structure, a list or a map.
    Nested,
}

/// The facts of one column that the detail band draws.
#[derive(Clone, Debug)]
pub struct ColumnBrief {
    /// The name of the column.
    pub column: String,
    /// The number of rows of the view.
    pub n_total: u64,
    /// The number of rows with a value that is not NULL.
    pub n_present: u64,
    /// The estimated number of different values, when the engine measured it.
    pub n_distinct: Option<u64>,
    /// The smallest value, as text, when the engine measured it.
    pub min: Option<String>,
    /// The largest value, as text, when the engine measured it.
    pub max: Option<String>,
}

/// The row of the range of a column: its smallest and its largest value, with
/// the width of the column shared between the two ends.
pub open spec fn range_text(
    kind: CellKind,
    min: Option<Seq<char>>,
    max: Option<Seq<char>>,
    n_present: u64,
    w: nat,
) -> Seq<char> {
    if kind == CellKind::Nested || kind == CellKind::Binary {
        "no order"@
    } else if min is None || max is None {
        if n_present == 0 { "all null"@ } else { waiting_text(w) }
    } else {
        let lo = min.unwrap().map_values(|c: char| visible(c));
        let hi = max.unwrap().map_values(|c: char| visible(c));
        if lo == hi {
            lo
        } else {
            let room: int = if w >= 3 { w - 3 } else { 0 };
            if room < 2 {
                lo + "→"@ + hi
            } else {
                let half: int = if room / 2 >= 1 { room / 2 } else { 1 };
                let lw: int = if text_width(lo) >= 1 { text_width(lo) as int } else { 1 };
                let left: int = if lw <= half { lw } else { half };
                let hw: int = if text_width(hi) >= 1 { text_width(hi) as int } else { 1 };
                let right: int = if room - left <= hw { room - left } else { hw };
                truncated(lo, (room - right) as nat) + " → "@ + truncated(hi, right as nat)
            }
        }
    }
}

/// The view of a text that may be missing.
pub open spec fn opt_view(s: Option<String>) -> Option<Seq<char>> {
    match s {
        Some(t) => Some(t@),
        None => None,
    }
}

/// Builds the row with the smallest value and the largest value.
///
/// The row divides the width of the column between the two ends, so a long
/// value at one end cannot push the other end off the column. Each end asks
/// for one half of the room and no more than it needs, and an end that needs
/// less gives the remainder to the other end. Each end keeps one screen
/// column at the least, so the row always shows that the column has two ends.
pub fn range_line(kind: CellKind, b: &ColumnBrief, w: usize) -> (r: String)
    ensures
        r@ == range_text(kind, opt_view(b.min), opt_view(b.max), b.n_present, w as nat),
{
    // A structure, a list and a BLOB have no order, so they have no range.
    if kind == CellKind::Nested || kind == CellKind::Binary {
        return String::from_str("no order");
    }
    let (lo, hi) = match (&b.min, &b.max) {
        (Some(lo), Some(hi)) => (sanitize(lo.as_str()), sanitize(hi.as_str())),
        _ => {
            // The engine gives no value for a column where each value is NULL.
            return if b.n_present == 0 {
                String::from_str("all null")
            } else {
                waiting(w)
            };
        },
    };
    if lo == hi {
        // One value only. An arrow between two copies of it says nothing.
        return lo;
    }
    // Three screen columns go to the arrow and to the space on each side of it.
    let room = w.saturating_sub(3);
    if room < 2 {
        let mut out = lo;
        out.append("→");
        out.append(hi.as_str());
        return out;
    }
    let half = if room / 2 >= 1 { room / 2 } else { 1 };
    let lw = width(lo.as_str());
    let lw = if lw >= 1 { lw } else { 1 };
    let left = if lw <= half { lw } else { half };
    let hw = width(hi.as_str());
    let hw = if hw >= 1 { hw } else { 1 };
    let right = if room - left <= hw { room - left } else { hw };
    let mut out = truncate(lo.as_str(), room - right);
    out.append(" → ");
    let tail = truncate(hi.as_str(), right);
    out.append(tail.as_str());
    out
}

} // verus!
