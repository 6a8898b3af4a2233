//! The search of the grid: the matches that are known, and the scan that
//! asks the engine for the rest of the view one part at a time.
//!
//! The engine examines a part of the view for each request, and the parts
//! grow: the first answer arrives at once, and a search of a large file does
//! not read that file many times. The state here says which part comes next
//! and what the cursor does with the matches of a part.

use vstd::prelude::*;

use crate::chars::{decimal, decimal_text};
use crate::cursor::{known_hit, nearest_hit};

verus! {

broadcast use vstd::string::group_string_axioms;

/// The number of rows that the engine examines in the first part of a
/// search: small, so that a match near the cursor comes back at once and the
/// user can stop a search that finds nothing.
pub const SEARCH_CHUNK: u64 = 250_000;

/// The largest number of rows that one part examines. Each request reads the
/// view from its start and then skips to its part, so the parts double in
/// size up to this number, and a search of ten million rows needs about six
/// parts and not forty.
pub const SEARCH_CHUNK_MAX: u64 = 4_000_000;

/// The largest number of matches that one part gives.
pub const SEARCH_HITS: u32 = 500;

/// A search that runs now.
#[derive(Clone, Copy, Debug, PartialEq, Eq, Structural)]
pub struct Scan {
    /// `true` when the search moves down the view.
    pub forward: bool,
    /// `true` when a match on the row of the cursor counts: a search that the
    /// user types. The keys `n` and `N` must always move the cursor, so they
    /// search with `false`.
    pub inclusive: bool,
    /// The first row of the next part, for a search down the view; for a
    /// search up the view, the row after the last row of the next part.
    pub next: u64,
    /// The number of rows that the search examined.
    pub examined: u64,
    /// The number of rows of the view.
    pub total: u64,
    /// The number of rows of the next part.
    pub chunk: u64,
}

impl Scan {
    /// The rules that each scan keeps: a part has between one row and
    /// [`SEARCH_CHUNK_MAX`] rows, and the count of the rows leaves room for a
    /// share in percent.
    pub open spec fn wf(self) -> bool {
        &&& 1 <= self.chunk <= SEARCH_CHUNK_MAX
        &&& self.total <= u64::MAX / 100
    }

    /// Starts a search at the row `from` of a view of `total` rows.
    pub fn start(from: u64, forward: bool, inclusive: bool, total: u64) -> (r: Scan)
        requires
            total <= u64::MAX / 100,
        ensures
            r.wf(),
            r == (Scan { forward, inclusive, next: from, examined: 0, total, chunk: SEARCH_CHUNK }),
    {
        Scan { forward, inclusive, next: from, examined: 0, total, chunk: SEARCH_CHUNK }
    }
}

/// The next part of a scan and the scan after it.
///
/// Down the view, a part starts at the next row, or again at the first row
/// after the end of the view, and holds the rows of the chunk, no more than
/// the rest of the view, and at least one. Up the view, a part ends at the
/// next row, or at the end of the view when the scan went past the first row,
/// and holds the rows of the chunk, no more than the rows before its end.
/// Each part doubles the chunk, up to [`SEARCH_CHUNK_MAX`].
pub open spec fn part_of(s: Scan) -> (Scan, (u64, u64)) {
    let grown: u64 = if s.chunk * 2 <= SEARCH_CHUNK_MAX { (s.chunk * 2) as u64 } else { SEARCH_CHUNK_MAX };
    let (from, len, next) = if s.forward {
        let from: u64 = if s.next >= s.total { 0 } else { s.next };
        let rest: int = s.total - from;
        let len: u64 = if s.chunk <= rest { s.chunk } else if rest >= 1 { rest as u64 } else { 1 };
        (from, len, (from + len) as u64)
    } else {
        let end: u64 = if s.next == 0 { s.total } else { s.next };
        let from: u64 = if end >= s.chunk { (end - s.chunk) as u64 } else { 0 };
        (from, (end - from) as u64, from)
    };
    let seen: int = s.examined + len;
    (
        Scan { next, examined: if seen <= u64::MAX { seen as u64 } else { u64::MAX }, chunk: grown, ..s },
        (from, len),
    )
}

impl Scan {
    /// Gives the next part of the scan, its first row and its count of rows,
    /// and moves the scan past it: refer to [`part_of`].
    pub fn next_part(&mut self) -> (r: (u64, u64))
        requires
            old(self).wf(),
        ensures
            final(self).wf(),
            (*final(self), r) == part_of(*old(self)),
    {
        let chunk = self.chunk;
        self.chunk = if chunk * 2 <= SEARCH_CHUNK_MAX { chunk * 2 } else { SEARCH_CHUNK_MAX };
        let (from, len) = if self.forward {
            let from = if self.next >= self.total { 0 } else { self.next };
            let rest = self.total - from;
            let len = if chunk <= rest { chunk } else if rest >= 1 { rest } else { 1 };
            self.next = from + len;
            (from, len)
        } else {
            let end = if self.next == 0 { self.total } else { self.next };
            let from = end.saturating_sub(chunk);
            self.next = from;
            (from, end - from)
        };
        self.examined = self.examined.saturating_add(len);
        (from, len)
    }
}

/// The share of the view that a scan examined, in whole percent.
pub open spec fn progress_pct(examined: u64, total: u64) -> nat {
    let seen: int = if examined <= total { examined as int } else { total as int };
    let whole: int = if total >= 1 { total as int } else { 1 };
    ((seen * 100) / whole) as nat
}

/// Gives the message while a scan runs: the share of the view that it
/// examined, and the key that stops it.
pub fn progress_text(s: &Scan) -> (r: String)
    requires
        s.wf(),
    ensures
        r@ == "searching… "@ + decimal(progress_pct(s.examined, s.total)) + "%  (Esc cancels)"@,
{
    let seen = if s.examined <= s.total { s.examined } else { s.total };
    let whole = if s.total >= 1 { s.total } else { 1 };
    assert(seen * 100 <= u64::MAX) by (nonlinear_arith)
        requires
            seen <= s.total,
            s.total <= u64::MAX / 100,
    ;
    let pct = (seen * 100) / whole;
    let mut m = String::from_str("searching… ");
    m.append(decimal_text(pct).as_str());
    m.append("%  (Esc cancels)");
    m
}

/// Gives `true` when a list of rows is in order, each row once.
pub open spec fn strictly_sorted(s: Seq<u64>) -> bool {
    forall|i: int, j: int| 0 <= i < j < s.len() ==> s[i] < s[j]
}

/// Puts the matches of one part into the list of the known matches, which
/// stays in order with each row once.
pub fn add_hits(hits: &mut Vec<u64>, found: &Vec<u64>)
    requires
        strictly_sorted(old(hits)@),
    ensures
        strictly_sorted(final(hits)@),
        final(hits)@.to_set() == old(hits)@.to_set() + found@.to_set(),
{
    let ghost start = hits@.to_set();
    let mut k: usize = 0;
    while k < found.len()
        invariant
            k <= found@.len(),
            strictly_sorted(hits@),
            hits@.to_set() == start + found@.take(k as int).to_set(),
        decreases found@.len() - k,
    {
        let h = found[k];
        let ghost before = hits@;
        let mut i: usize = 0;
        while i < hits.len() && hits[i] < h
            invariant
                hits@ == before,
                i <= hits@.len(),
                forall|j: int| 0 <= j < i ==> hits@[j] < h,
            decreases hits@.len() - i,
        {
            i += 1;
        }
        if i < hits.len() && hits[i] == h {
            assert(found@.take(k + 1).to_set() =~= found@.take(k as int).to_set().insert(h)) by {
                assert(found@.take(k + 1) =~= found@.take(k as int).push(h));
                found@.take(k as int).lemma_push_to_set_commute(h);
            }
            assert(hits@.to_set().contains(h)) by {
                assert(hits@.contains(h));
            }
            assert(hits@.to_set() =~= start + found@.take(k + 1).to_set());
        } else {
            hits.insert(i, h);
            proof {
                assert(hits@ =~= before.insert(i as int, h));
                assert forall|a: int, b: int| 0 <= a < b < hits@.len() implies hits@[a] < hits@[b] by {
                    if b < i {
                    } else if a < i && b == i {
                    } else if a < i {
                        assert(hits@[b] == before[b - 1]);
                    } else if a == i {
                        assert(hits@[b] == before[b - 1]);
                        assert(before[i as int] > h);
                    } else {
                        assert(hits@[a] == before[a - 1] && hits@[b] == before[b - 1]);
                    }
                }
                assert(found@.take(k + 1) =~= found@.take(k as int).push(h));
                found@.take(k as int).lemma_push_to_set_commute(h);
                assert(hits@.to_set() =~= before.to_set().insert(h)) by {
                    assert forall|x: u64| hits@.to_set().contains(x) <==> before.to_set().insert(h).contains(x) by {
                        if hits@.contains(x) {
                            let p = choose|p: int| 0 <= p < hits@.len() && hits@[p] == x;
                            if p < i {
                                assert(before[p] == x);
                            } else if p > i {
                                assert(before[p - 1] == x);
                            }
                        }
                        if before.contains(x) {
                            let p = choose|p: int| 0 <= p < before.len() && before[p] == x;
                            if p < i {
                                assert(hits@[p] == x);
                            } else {
                                assert(hits@[p + 1] == x);
                            }
                        }
                        if x == h {
                            assert(hits@[i as int] == h);
                        }
                    }
                }
                assert(found@.take(k + 1).to_set() =~= found@.take(k as int).to_set().insert(h));
                assert(hits@.to_set() =~= start + found@.take(k + 1).to_set());
            }
        }
        k += 1;
    }
    assert(found@.take(k as int) =~= found@);
}

/// What the cursor does after a part of a scan.
#[derive(Clone, Copy, Debug, PartialEq, Eq, Structural)]
pub enum SearchStep {
    /// Go to the match at this row; `true` when the search went round the end
    /// of the view to find it.
    GoTo(u64, bool),
    /// Say that no row matches.
    NoMatch,
    /// Say that no match comes after the cursor in the direction of the
    /// search.
    NoFurther,
    /// Ask the engine for the next part.
    More,
}

/// The first match or the last one, for a search that goes round the end of
/// the view.
pub open spec fn wrapped_hit(hits: Seq<u64>, forward: bool) -> Option<u64> {
    if hits.len() == 0 {
        None
    } else if forward {
        Some(hits[0])
    } else {
        Some(hits.last())
    }
}

/// What the cursor at the row `cursor` does after a part of a scan.
///
/// A part that found a match ends the scan: the cursor goes to the nearest
/// known match in the direction of the search, or round the end of the view
/// to the match at the other end. A scan that examined the whole view and
/// found nothing in its last part says that no row matches, or that no
/// further one does. Otherwise the scan asks for its next part.
pub open spec fn step_after(hits: Seq<u64>, found: bool, done: bool, s: Scan, cursor: u64) -> SearchStep {
    if found {
        let target = match nearest_hit(hits, cursor, s.forward, s.inclusive) {
            Some(h) => Some(h),
            None => wrapped_hit(hits, s.forward),
        };
        match target {
            Some(row) => SearchStep::GoTo(row, if s.forward { row < cursor } else { row > cursor }),
            None => SearchStep::NoMatch,
        }
    } else if done {
        if hits.len() == 0 {
            SearchStep::NoMatch
        } else {
            SearchStep::NoFurther
        }
    } else {
        SearchStep::More
    }
}

/// Gives what the cursor does after a part of a scan: refer to
/// [`step_after`]. `hits` is the list of the known matches with those of the
/// part, `found` says whether the part found any, and `done` whether the
/// scan had examined the whole view before the part.
pub fn after_part(hits: &Vec<u64>, found: bool, done: bool, s: &Scan, cursor: u64) -> (r: SearchStep)
    ensures
        r == step_after(hits@, found, done, *s, cursor),
{
    if found {
        let target = match known_hit(hits, cursor, s.forward, s.inclusive) {
            Some(h) => Some(h),
            None => {
                if hits.len() == 0 {
                    None
                } else if s.forward {
                    Some(hits[0])
                } else {
                    Some(hits[hits.len() - 1])
                }
            },
        };
        match target {
            Some(row) => SearchStep::GoTo(row, if s.forward { row < cursor } else { row > cursor }),
            None => SearchStep::NoMatch,
        }
    } else if done {
        if hits.len() == 0 {
            SearchStep::NoMatch
        } else {
            SearchStep::NoFurther
        }
    } else {
        SearchStep::More
    }
}

/// A forward scan that starts inside the view walks it part after part: a
/// part starts where the one before it ended, until the end of the view.
pub proof fn the_parts_follow_each_other(s: Scan)
    requires
        s.wf(),
        s.forward,
        s.next < s.total,
    ensures
        part_of(s).1.0 == s.next,
        part_of(s).1.1 >= 1,
        part_of(s).0.next == s.next + part_of(s).1.1,
        part_of(s).0.next <= s.total,
        part_of(s).0.wf(),
{
}

} // verus!

verus! {

/// What the keys `n` and `N` do.
#[derive(Clone, Copy, Debug, PartialEq, Eq, Structural)]
pub enum SearchKey {
    /// Say that no search was typed yet.
    NoNeedle,
    /// Go to the match at this row; `true` when the search went round the end
    /// of the view.
    GoTo(u64, bool),
    /// Say that no row matches.
    NoMatch,
    /// Start a scan at this row, for the matches that are not known yet.
    Scan(u64),
}

/// What the keys `n` (`forward`) and `N` do from the row `cursor`.
///
/// With no search typed, they say so. A known match after the cursor (before
/// it, for `N`) takes the cursor; the row of the cursor does not count, so the
/// key always moves it. When each match is known, the cursor goes round the
/// end of the view to the match at the other end. Otherwise a scan starts at
/// the row after the cursor (at the cursor, for `N`).
pub open spec fn search_key_step(needle_empty: bool, hits: Seq<u64>, complete: bool, cursor: u64, forward: bool) -> SearchKey {
    if needle_empty {
        SearchKey::NoNeedle
    } else {
        match nearest_hit(hits, cursor, forward, false) {
            Some(row) => SearchKey::GoTo(row, false),
            None => if complete {
                match wrapped_hit(hits, forward) {
                    Some(row) => SearchKey::GoTo(row, true),
                    None => SearchKey::NoMatch,
                }
            } else {
                SearchKey::Scan(
                    if forward {
                        if cursor < u64::MAX { (cursor + 1) as u64 } else { u64::MAX }
                    } else {
                        cursor
                    },
                )
            },
        }
    }
}

/// Gives what the keys `n` and `N` do: refer to [`search_key_step`].
pub fn search_key(needle_empty: bool, hits: &Vec<u64>, complete: bool, cursor: u64, forward: bool) -> (r: SearchKey)
    ensures
        r == search_key_step(needle_empty, hits@, complete, cursor, forward),
{
    if needle_empty {
        return SearchKey::NoNeedle;
    }
    if let Some(row) = known_hit(hits, cursor, forward, false) {
        return SearchKey::GoTo(row, false);
    }
    if complete {
        if hits.len() == 0 {
            SearchKey::NoMatch
        } else if forward {
            SearchKey::GoTo(hits[0], true)
        } else {
            SearchKey::GoTo(hits[hits.len() - 1], true)
        }
    } else {
        SearchKey::Scan(if forward { cursor.saturating_add(1) } else { cursor })
    }
}

} // verus!
