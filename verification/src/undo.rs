//! The history of the views: the steps that `u` goes back through and the
//! steps that `U` goes forward through again.
//!
//! A view here is any value of the program (the relation, the filter, the
//! sort and the conditions of the filter). The program compares two views
//! itself and says whether a reload changed the view.

use vstd::prelude::*;

verus! {

/// The number of views that the history keeps after a change: one entry for
/// each change, more than a user needs in one session, and few enough that
/// the list does not grow without end.
pub const MAX_HISTORY: usize = 100;

/// The two lists of the history: the views behind the current one, the
/// newest last, and the views that a step backward left, the newest last.
#[derive(Debug)]
pub struct ViewHistory<T> {
    pub back: Vec<T>,
    pub forward: Vec<T>,
}

/// The two lists as values.
pub struct HistoryState<T> {
    pub back: Seq<T>,
    pub forward: Seq<T>,
}

impl<T> View for ViewHistory<T> {
    type V = HistoryState<T>;

    open spec fn view(&self) -> HistoryState<T> {
        HistoryState { back: self.back@, forward: self.forward@ }
    }
}

/// The list behind the view after a change from the view `before`: the view
/// goes to the end, and the oldest entry leaves a list that grew past
/// [`MAX_HISTORY`] entries.
pub open spec fn pushed<T>(back: Seq<T>, before: T) -> Seq<T> {
    let grown = back.push(before);
    if grown.len() > MAX_HISTORY {
        grown.drop_first()
    } else {
        grown
    }
}

/// The history after a reload of the view: `before` is the view that the
/// reload replaced, `changed` says whether the new view differs from it, and
/// `restoring` whether the reload comes from a step through the history.
///
/// A change puts the old view into the list behind. A change that the user
/// made also removes the way forward: a step that `u` removed can no longer
/// follow the view that the user is on.
pub open spec fn recorded<T>(h: HistoryState<T>, before: T, changed: bool, restoring: bool) -> HistoryState<T> {
    if !changed {
        h
    } else if restoring {
        HistoryState { back: pushed(h.back, before), ..h }
    } else {
        HistoryState { back: pushed(h.back, before), forward: Seq::empty() }
    }
}

/// The history after the start of a step backward (`back`) or forward, and
/// the view of that step: the newest view of that way, or the message when
/// that way holds none.
pub open spec fn taken<T>(h: HistoryState<T>, back: bool) -> (HistoryState<T>, Result<T, Seq<char>>) {
    if back {
        if h.back.len() > 0 {
            (HistoryState { back: h.back.drop_last(), ..h }, Ok(h.back.last()))
        } else {
            (h, Err("nothing to go back to"@))
        }
    } else if h.forward.len() > 0 {
        (HistoryState { forward: h.forward.drop_last(), ..h }, Ok(h.forward.last()))
    } else {
        (h, Err("nothing to go forward to"@))
    }
}

/// The history at the end of a step, after the reload of the view of the
/// step: `current` is the view that the step left.
///
/// The reload put the view that the user left into the list behind. After a
/// step backward that entry moves to the list forward, for `U`. After a step
/// forward the view that the user left goes behind once more.
pub open spec fn finished<T>(h: HistoryState<T>, back: bool, current: T) -> HistoryState<T> {
    if back {
        HistoryState {
            back: if h.back.len() > 0 { h.back.drop_last() } else { h.back },
            forward: h.forward.push(current),
        }
    } else {
        HistoryState { back: h.back.push(current), ..h }
    }
}

impl<T> ViewHistory<T> {
    /// An empty history.
    pub fn new() -> (r: ViewHistory<T>)
        ensures
            r@.back == Seq::<T>::empty(),
            r@.forward == Seq::<T>::empty(),
    {
        ViewHistory { back: Vec::new(), forward: Vec::new() }
    }

    /// Takes a reload of the view: refer to [`recorded`].
    pub fn record(&mut self, before: T, changed: bool, restoring: bool)
        ensures
            final(self)@ == recorded(old(self)@, before, changed, restoring),
    {
        if changed {
            self.back.push(before);
            if self.back.len() > MAX_HISTORY {
                self.back.remove(0);
                proof {
                    assert(self.back@ =~= pushed(old(self).back@, before));
                }
            }
            if !restoring {
                self.forward.clear();
            }
        }
    }

    /// Starts a step backward (`back`) or forward: refer to [`taken`].
    pub fn take(&mut self, back: bool) -> (r: Result<T, &'static str>)
        ensures
            (final(self)@, match r {
                Ok(v) => Ok(v),
                Err(m) => Err(m@),
            }) == taken(old(self)@, back),
    {
        if back {
            match self.back.pop() {
                Some(v) => Ok(v),
                None => Err("nothing to go back to"),
            }
        } else {
            match self.forward.pop() {
                Some(v) => Ok(v),
                None => Err("nothing to go forward to"),
            }
        }
    }

    /// Ends a step: refer to [`finished`].
    pub fn finish(&mut self, back: bool, current: T)
        ensures
            final(self)@ == finished(old(self)@, back, current),
    {
        if back {
            self.back.pop();
            self.forward.push(current);
        } else {
            self.back.push(current);
        }
    }
}

/// A step forward gives back the view that a step backward left: after `u`
/// (the start of the step, the reload of the view that it took, which comes
/// from the history, and the end of the step), `U` takes the view that the
/// user left, and the history behind is the one that `u` found, without its
/// newest view, whatever the reload did.
pub proof fn redo_gives_back_what_undo_left<T>(h: HistoryState<T>, current: T, changed: bool)
    requires
        h.back.len() > 0,
    ensures
        ({
            let (h1, step) = taken(h, true);
            let h2 = recorded(h1, current, changed, true);
            let h3 = finished(h2, true, current);
            let (h4, again) = taken(h3, false);
            &&& step == Ok::<T, Seq<char>>(h.back.last())
            &&& again == Ok::<T, Seq<char>>(current)
            &&& h4.forward == h.forward
        }),
{
    let (h1, _) = taken(h, true);
    let h2 = recorded(h1, current, changed, true);
    let h3 = finished(h2, true, current);
    assert(h3.forward.drop_last() =~= h.forward);
}

/// A change that the user makes removes the way forward: after it, a step
/// forward finds nothing and says so.
pub proof fn a_new_change_removes_the_way_forward<T>(h: HistoryState<T>, before: T)
    ensures
        taken(recorded(h, before, true, false), false).1 == Err::<T, Seq<char>>("nothing to go forward to"@),
{
}

/// A reload that changes nothing leaves the history as it was.
pub proof fn a_reload_without_a_change_keeps_the_history<T>(h: HistoryState<T>, before: T, restoring: bool)
    ensures
        recorded(h, before, false, restoring) == h,
{
}

} // verus!
