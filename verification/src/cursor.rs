//! The cursor of the grid: how it moves through the rows and the columns,
//! how the window of rows follows it, which page of rows the viewer asks the
//! engine for, and how it finds the next match of a search among the matches
//! that are known.

use vstd::prelude::*;

use crate::app::{first_col, sat_add, within, Hit};
use crate::chars::{decimal, decimal_text};
use crate::keys::{MouseButton, MouseEvent, MouseEventKind};

verus! {

broadcast use vstd::string::group_string_axioms;

/// The first row of the window after the cursor moved to `row`: the window
/// moves only as far as it must to keep the cursor on the screen, and it
/// counts at least one row.
pub open spec fn followed_top(row: u64, top: u64, viewport: u16) -> u64 {
    let vis: int = if viewport >= 1 { viewport as int } else { 1 };
    if row < top {
        row
    } else if row >= top + vis {
        (row - vis + 1) as u64
    } else {
        top
    }
}

/// Gives the first row of the window that keeps the cursor on the screen:
/// refer to [`followed_top`].
pub fn follow(row: u64, top: u64, viewport: u16) -> (r: u64)
    requires
        top + viewport + 1 <= u64::MAX,
    ensures
        r == followed_top(row, top, viewport),
        r <= row,
        row < r + if viewport >= 1 { viewport as int } else { 1 },
{
    let vis: u64 = if viewport >= 1 { viewport as u64 } else { 1 };
    if row < top {
        row
    } else if row >= top + vis {
        row - vis + 1
    } else {
        top
    }
}

/// The row of the cursor after a move of `delta` rows: up to the first row
/// at most, and down to the row `last` at most.
pub open spec fn moved_row(row: u64, delta: i64, last: u64) -> u64 {
    if delta < 0 {
        if row >= -(delta as int) { (row + delta) as u64 } else { 0 }
    } else {
        let down: int = row + delta;
        let capped: int = if down > u64::MAX { u64::MAX as int } else { down };
        if capped < last { capped as u64 } else { last }
    }
}

/// Gives the row of the cursor after a move: refer to [`moved_row`].
pub fn move_row(row: u64, delta: i64, last: u64) -> (r: u64)
    ensures
        r == moved_row(row, delta, last),
{
    if delta < 0 {
        let up: u64 = if delta == i64::MIN { 0x8000_0000_0000_0000u64 } else { (-delta) as u64 };
        row.saturating_sub(up)
    } else {
        let down = row.saturating_add(delta as u64);
        if down < last { down } else { last }
    }
}

/// The column of the cursor after a move of `delta` columns among the
/// columns that the grid draws, `vis`, in their order: from the position of
/// the cursor in that list, or from its start when the cursor is on no
/// drawn column, and inside the list. `None` when the grid draws no column.
pub open spec fn moved_col(vis: Seq<usize>, col: usize, delta: i64) -> Option<usize> {
    if vis.len() == 0 {
        None
    } else {
        let at: int = match vis.index_of_first(col) {
            Some(i) => i,
            None => 0,
        };
        let next = at + delta;
        let kept: int = if next < 0 { 0 } else if next > vis.len() - 1 { vis.len() - 1 } else { next };
        Some(vis[kept])
    }
}

/// Gives the position of the first column `col` in a list, or 0 when the
/// list does not hold it.
fn first_col_position(vis: &Vec<usize>, col: usize) -> (r: usize)
    ensures
        r == match vis@.index_of_first(col) {
            Some(i) => i,
            None => 0,
        },
        vis@.len() > 0 ==> r < vis@.len(),
{
    let mut i: usize = 0;
    while i < vis.len()
        invariant
            i <= vis@.len(),
            forall|k: int| 0 <= k < i ==> vis@[k] != col,
        decreases vis@.len() - i,
    {
        if vis[i] == col {
            proof {
                vis@.index_of_first_ensures(col);
                let f = vis@.index_of_first(col).unwrap();
                if f < i {
                    assert(vis@[f] != col);
                } else if f > i {
                    assert(vis@[i as int] != col);
                }
            }
            return i;
        }
        i += 1;
    }
    proof {
        vis@.index_of_first_ensures(col);
        if vis@.index_of_first(col) is Some {
            let f = vis@.index_of_first(col).unwrap();
            assert(vis@[f] != col);
        }
    }
    0
}

/// Gives the position of the first match `row` in a list, or 0 when the
/// list does not hold it.
fn first_hit_position(hits: &Vec<u64>, row: u64) -> (r: usize)
    ensures
        r == match hits@.index_of_first(row) {
            Some(i) => i,
            None => 0,
        },
        hits@.len() > 0 ==> r < hits@.len(),
        hits@.len() == 0 ==> r == 0,
{
    let mut i: usize = 0;
    while i < hits.len()
        invariant
            i <= hits@.len(),
            forall|k: int| 0 <= k < i ==> hits@[k] != row,
        decreases hits@.len() - i,
    {
        if hits[i] == row {
            proof {
                hits@.index_of_first_ensures(row);
                let f = hits@.index_of_first(row).unwrap();
                if f < i {
                    assert(hits@[f] != row);
                } else if f > i {
                    assert(hits@[i as int] != row);
                }
            }
            return i;
        }
        i += 1;
    }
    proof {
        hits@.index_of_first_ensures(row);
        if hits@.index_of_first(row) is Some {
            let f = hits@.index_of_first(row).unwrap();
            assert(hits@[f] != row);
        }
    }
    0
}

/// Gives the column of the cursor after a move: refer to [`moved_col`].
pub fn move_col(vis: &Vec<usize>, col: usize, delta: i64) -> (r: Option<usize>)
    ensures
        r == moved_col(vis@, col, delta),
{
    if vis.len() == 0 {
        return None;
    }
    let at = first_col_position(vis, col);
    let next: i128 = at as i128 + delta as i128;
    let top: i128 = vis.len() as i128 - 1;
    let kept: usize = if next < 0 { 0 } else if next > top { vis.len() - 1 } else { next as usize };
    Some(vis[kept])
}

/// The offset of the last row of the view: the count of the rows less one,
/// when the count is known; else the last row of the page that holds the
/// end of the view; else the largest offset, while the end is not known.
pub open spec fn last_row_of(total: Option<u64>, page_is_last: bool, offset: u64, nrows: usize) -> u64 {
    match total {
        Some(t) => if t >= 1 { (t - 1) as u64 } else { 0 },
        None => if page_is_last {
            if offset + nrows >= 1 { (offset + nrows - 1) as u64 } else { 0 }
        } else {
            u64::MAX
        },
    }
}

/// Gives the offset of the last row: refer to [`last_row_of`].
pub fn last_row(total: Option<u64>, page_is_last: bool, offset: u64, nrows: usize) -> (r: u64)
    requires
        page_is_last ==> offset + nrows <= u64::MAX,
    ensures
        r == last_row_of(total, page_is_last, offset, nrows),
{
    match total {
        Some(t) => t.saturating_sub(1),
        None => {
            if page_is_last {
                (offset + nrows as u64).saturating_sub(1)
            } else {
                u64::MAX
            }
        },
    }
}

/// Gives the position in the page of the row of the cursor, when the page
/// holds that row.
pub fn page_row(cursor: u64, offset: u64, nrows: usize) -> (r: Option<usize>)
    ensures
        r == if offset <= cursor && cursor - offset < nrows {
            Some((cursor - offset) as usize)
        } else {
            None::<usize>
        },
{
    if cursor < offset {
        return None;
    }
    let r = cursor - offset;
    if r < nrows as u64 {
        Some(r as usize)
    } else {
        None
    }
}

/// Gives `true` when a match counts in a direction from the row `c`: after
/// it (before it, with `forward` false), or on it too with `inclusive`.
pub open spec fn counts(h: u64, c: u64, forward: bool, inclusive: bool) -> bool {
    if forward {
        if inclusive { h >= c } else { h > c }
    } else {
        if inclusive { h <= c } else { h < c }
    }
}

/// The nearest known match in a direction: the first match in the list that
/// counts going forward, or the last one that counts going back. The search
/// does not ask the engine.
pub open spec fn nearest_hit(hits: Seq<u64>, c: u64, forward: bool, inclusive: bool) -> Option<u64> {
    if forward {
        if exists|i: int| 0 <= i < hits.len() && counts(#[trigger] hits[i], c, forward, inclusive) {
            let i = choose|i: int|
                0 <= i < hits.len() && counts(#[trigger] hits[i], c, forward, inclusive) && forall|j: int|
                    0 <= j < i ==> !counts(#[trigger] hits[j], c, forward, inclusive);
            Some(hits[i])
        } else {
            None
        }
    } else {
        if exists|i: int| 0 <= i < hits.len() && counts(#[trigger] hits[i], c, forward, inclusive) {
            let i = choose|i: int|
                0 <= i < hits.len() && counts(#[trigger] hits[i], c, forward, inclusive) && forall|j: int|
                    i < j < hits.len() ==> !counts(#[trigger] hits[j], c, forward, inclusive);
            Some(hits[i])
        } else {
            None
        }
    }
}

/// Gives the nearest known match: refer to [`nearest_hit`].
pub fn known_hit(hits: &Vec<u64>, c: u64, forward: bool, inclusive: bool) -> (r: Option<u64>)
    ensures
        r == nearest_hit(hits@, c, forward, inclusive),
{
    if forward {
        let mut i: usize = 0;
        while i < hits.len()
            invariant
                forward,
                i <= hits@.len(),
                forall|j: int| 0 <= j < i ==> !counts(#[trigger] hits@[j], c, forward, inclusive),
            decreases hits@.len() - i,
        {
            let h = hits[i];
            if (inclusive && h >= c) || (!inclusive && h > c) {
                proof {
                    let w = choose|k: int|
                        0 <= k < hits@.len() && counts(#[trigger] hits@[k], c, forward, inclusive) && forall|j: int|
                            0 <= j < k ==> !counts(#[trigger] hits@[j], c, forward, inclusive);
                    assert(counts(hits@[i as int], c, forward, inclusive));
                }
                return Some(h);
            }
            i += 1;
        }
        None
    } else {
        let mut i: usize = hits.len();
        while i > 0
            invariant
                !forward,
                i <= hits@.len(),
                forall|j: int| i <= j < hits@.len() ==> !counts(#[trigger] hits@[j], c, forward, inclusive),
            decreases i,
        {
            let h = hits[i - 1];
            if (inclusive && h <= c) || (!inclusive && h < c) {
                proof {
                    let w = choose|k: int|
                        0 <= k < hits@.len() && counts(#[trigger] hits@[k], c, forward, inclusive) && forall|j: int|
                            k < j < hits@.len() ==> !counts(#[trigger] hits@[j], c, forward, inclusive);
                    assert(counts(hits@[i - 1], c, forward, inclusive));
                }
                return Some(h);
            }
            i -= 1;
        }
        None
    }
}

/// The message after a move to a match: its position among the known
/// matches, their count with a `+` while the search goes on, and a note.
pub open spec fn match_note_text(at: nat, count: nat, complete: bool, note: Seq<char>) -> Seq<char> {
    "match "@ + decimal(at) + "/"@ + decimal(count) + (if complete { Seq::empty() } else { "+"@ }) + note
}

/// Gives the message after a move to the match at `row`: refer to
/// [`match_note_text`]. The position counts from one, and a row that is not
/// in the list counts as the first.
pub fn match_note(hits: &Vec<u64>, row: u64, complete: bool, note: &str) -> (r: String)
    requires
        hits@.len() < u64::MAX,
    ensures
        r@ == match_note_text(
            (match hits@.index_of_first(row) {
                Some(i) => i,
                None => 0,
            }) as nat + 1,
            hits@.len(),
            complete,
            note@,
        ),
{
    let at = first_hit_position(hits, row);
    let mut m = String::from_str("match ");
    let at1: u64 = at as u64 + 1;
    m.append(decimal_text(at1).as_str());
    m.append("/");
    m.append(decimal_text(hits.len() as u64).as_str());
    if !complete {
        m.append("+");
    }
    m.append(note);
    assert(complete ==> m@ =~= "match "@ + decimal(at1 as nat) + "/"@ + decimal(hits@.len()) + Seq::<char>::empty()
        + note@);
    m
}

/// A move of the cursor never passes the last row: the cursor stays on a
/// row of the view.
pub proof fn a_move_stays_inside_the_view(row: u64, delta: i64, last: u64)
    requires
        row <= last,
    ensures
        moved_row(row, delta, last) <= last,
{
}

/// A move down and the same move up come back to the row of the start, when
/// the move down did not stop at the last row.
pub proof fn a_move_and_its_opposite_come_back(row: u64, delta: i64, last: u64)
    requires
        0 < delta,
        row + delta <= last,
    ensures
        moved_row(moved_row(row, delta, last), (-delta) as i64, last) == row,
{
}

} // verus!

verus! {

/// The number of rows that the viewer reads before the first row of the
/// window and after its last row, so that a usual scroll does not wait for
/// the engine.
pub const PREFETCH: u64 = 250;

/// Gives `true` when the page of rows that the viewer holds covers the
/// window: the page has columns, starts at or before the first row of the
/// window, and reaches its last row, or is the last page of the view.
pub open spec fn page_covers(top: u64, viewport: u16, offset: u64, nrows: usize, ncols: usize, last_page: bool) -> bool {
    let visible: int = if viewport >= 1 { viewport as int } else { 1 };
    ncols > 0 && top >= offset && (top + visible <= offset + nrows || last_page)
}

/// The page that the viewer asks the engine for, for a window from the row
/// `top`: from [`PREFETCH`] rows before the window, and as many rows as the
/// window and twice [`PREFETCH`].
pub open spec fn page_for(top: u64, viewport: u16) -> (u64, u32) {
    (if top >= PREFETCH { (top - PREFETCH) as u64 } else { 0 }, (viewport + 2 * PREFETCH) as u32)
}

/// Gives the page that the viewer must ask the engine for, or `None` when
/// the page that it holds covers the window or the same request is on its
/// way already.
pub fn page_request(
    top: u64,
    viewport: u16,
    offset: u64,
    nrows: usize,
    ncols: usize,
    last_page: bool,
    requested: Option<(u64, u32)>,
) -> (r: Option<(u64, u32)>)
    requires
        top + viewport + 1 <= u64::MAX,
        offset + nrows <= u64::MAX,
    ensures
        r == if page_covers(top, viewport, offset, nrows, ncols, last_page) || requested == Some(page_for(top, viewport)) {
            None
        } else {
            Some(page_for(top, viewport))
        },
{
    let visible: u64 = if viewport >= 1 { viewport as u64 } else { 1 };
    let start = top.saturating_sub(PREFETCH);
    let limit: u32 = (viewport as u64 + 2 * PREFETCH) as u32;
    let covered = ncols > 0 && top >= offset && (top + visible <= offset + nrows as u64 || last_page);
    if covered {
        return None;
    }
    match requested {
        Some((s, l)) => {
            if s == start && l == limit {
                return None;
            }
        },
        None => {},
    }
    Some((start, limit))
}

/// The page that the viewer asks for holds the whole window, whatever its
/// first row and its height: a page that arrives is a page that covers the
/// window it was asked for.
pub proof fn the_asked_page_holds_the_window(top: u64, viewport: u16)
    ensures
        ({
            let (start, limit) = page_for(top, viewport);
            start <= top && top + (if viewport >= 1 { viewport as int } else { 1 }) <= start + limit
        }),
{
}

} // verus!

verus! {

/// What a press of the mouse on the grid does: whether it acted, the column
/// and the row of the cursor after it, and whether it opens the record view.
#[derive(Clone, Copy, Debug, PartialEq, Eq, Structural)]
pub struct GridClick {
    pub acted: bool,
    pub col: usize,
    pub row: u64,
    pub open: bool,
}

/// The row `top + off`, or the last row that 64 bits hold.
pub open spec fn sat_row(top: u64, off: u64) -> u64 {
    if top + off <= u64::MAX { (top + off) as u64 } else { u64::MAX }
}

/// What a press of the left button at the column `x` and the row `y` of the
/// terminal does to the cursor at the row `row` and the column `col`, when
/// the window starts at the row `top` and `max_row` is the last row that the
/// cursor can reach. `double` says whether the press ends a double click.
///
/// A press outside the columns of the grid (on a panel beside it), or on no
/// row of the grid and not on the names and the band, changes nothing, and so
/// does a press on an empty row under the last row of the view. A press on a
/// column moves the cursor to that column; a press on the names or on the band
/// moves no row and never sorts. A press on a row moves the cursor to it; a
/// press on the cell of the cursor, or a double click, also opens the record.
pub open spec fn grid_press(
    hit: Hit,
    x: u16,
    y: u16,
    double: bool,
    top: u64,
    row: u64,
    col: usize,
    max_row: u64,
) -> GridClick {
    let nothing = GridClick { acted: false, col, row, open: false };
    let on_labels = hit.header_y <= y && y < sat_add(hit.header_y, 1 + hit.band);
    let at: Option<u64> = if hit.rows > 0 && within(y, hit.top, hit.rows) {
        Some((y - hit.top) as u64)
    } else {
        None
    };
    let c = first_col(hit.cols@, x);
    if !(hit.width > 0 && within(x, hit.left, hit.width)) {
        nothing
    } else if !on_labels && at is None {
        nothing
    } else if at matches Some(off) && sat_row(top, off) > max_row {
        nothing
    } else {
        let to_col = match c {
            Some(ci) => ci,
            None => col,
        };
        match at {
            Some(off) => {
                let target = sat_row(top, off);
                let was_here = target == row && (c is None || c == Some(col));
                GridClick { acted: true, col: to_col, row: if target <= max_row { target } else { max_row }, open: double || was_here }
            },
            None => GridClick { acted: c is Some, col: to_col, row, open: false },
        }
    }
}

/// Gives what a press of the mouse on the grid does: refer to
/// [`grid_press`] for the left button; each other event changes nothing.
pub fn grid_click(hit: &Hit, ev: &MouseEvent, double: bool, top: u64, row: u64, col: usize, max_row: u64) -> (r: GridClick)
    requires
        hit.band < u16::MAX,
    ensures
        r == if ev.kind == MouseEventKind::Down(MouseButton::Left) {
            grid_press(*hit, ev.column, ev.row, double, top, row, col, max_row)
        } else {
            GridClick { acted: false, col, row, open: false }
        },
{
    let nothing = GridClick { acted: false, col, row, open: false };
    if ev.kind != MouseEventKind::Down(MouseButton::Left) {
        return nothing;
    }
    if !hit.holds(ev.column) {
        return nothing;
    }
    let on_labels = hit.on_labels(ev.row);
    let at = hit.row_at(ev.row);
    if !on_labels && at.is_none() {
        return nothing;
    }
    if let Some(off) = at {
        if top.saturating_add(off) > max_row {
            return nothing;
        }
    }
    let c = hit.col_at(ev.column);
    let to_col = match c {
        Some(ci) => ci,
        None => col,
    };
    match at {
        Some(off) => {
            let target = top.saturating_add(off);
            let same_col = match c {
                Some(ci) => ci == col,
                None => true,
            };
            let was_here = target == row && same_col;
            GridClick { acted: true, col: to_col, row: if target <= max_row { target } else { max_row }, open: double || was_here }
        },
        None => GridClick { acted: c.is_some(), col: to_col, row, open: false },
    }
}

/// The first press on a cell only chooses it: a single press on a row that
/// the cursor is not on moves the cursor there and never opens the record.
pub proof fn a_first_press_on_a_cell_only_moves(
    hit: Hit,
    x: u16,
    y: u16,
    top: u64,
    row: u64,
    col: usize,
    max_row: u64,
)
    requires
        ({
            let r = grid_press(hit, x, y, false, top, row, col, max_row);
            r.acted && r.row != row
        }),
    ensures
        !grid_press(hit, x, y, false, top, row, col, max_row).open,
{
}

} // verus!
