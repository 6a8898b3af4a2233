use peruse_tui::undo::{ViewHistory, MAX_HISTORY};

/// The views of a session, as the program keeps them: the view on the
/// screen and the history, with a reload that compares the two.
struct Session {
    view: &'static str,
    applied: &'static str,
    history: ViewHistory<&'static str>,
}

impl Session {
    fn new() -> Session {
        Session { view: "file", applied: "file", history: ViewHistory::new() }
    }

    fn reload(&mut self, restoring: bool) {
        let changed = self.view != self.applied;
        let before = self.applied;
        self.applied = self.view;
        self.history.record(before, changed, restoring);
    }

    fn change(&mut self, to: &'static str) {
        self.view = to;
        self.reload(false);
    }

    fn step(&mut self, back: bool) -> Result<(), &'static str> {
        let step = self.history.take(back)?;
        let current = self.view;
        self.view = step;
        self.reload(true);
        self.history.finish(back, current);
        Ok(())
    }
}

#[test]
fn undo_goes_back_one_change_at_a_time() {
    let mut s = Session::new();
    s.change("region = EU");
    s.change("region = EU and id <> 1");
    assert_eq!(s.step(true), Ok(()));
    assert_eq!(s.view, "region = EU");
    assert_eq!(s.step(true), Ok(()));
    assert_eq!(s.view, "file");
}

#[test]
fn undo_stops_at_the_start_and_says_so() {
    let mut s = Session::new();
    s.change("sorted");
    assert_eq!(s.step(true), Ok(()));
    assert_eq!(s.view, "file");
    assert_eq!(s.step(true), Err("nothing to go back to"));
    assert_eq!(s.view, "file");
}

#[test]
fn redo_puts_back_what_undo_removed() {
    let mut s = Session::new();
    s.change("region = EU");
    s.step(true).unwrap();
    assert_eq!(s.view, "file");
    assert_eq!(s.step(false), Ok(()));
    assert_eq!(s.view, "region = EU");
    assert_eq!(s.step(false), Err("nothing to go forward to"));
}

#[test]
fn a_new_change_removes_the_way_forward() {
    let mut s = Session::new();
    s.change("region = EU");
    s.step(true).unwrap();
    s.change("sorted");
    assert_eq!(s.step(false), Err("nothing to go forward to"));
    assert_eq!(s.view, "sorted");
}

#[test]
fn a_reload_without_a_change_leaves_the_history() {
    let mut h: ViewHistory<u32> = ViewHistory::new();
    h.record(1, false, false);
    assert!(h.back.is_empty());
    h.record(1, true, false);
    h.forward.push(9);
    h.record(2, false, false);
    assert_eq!(h.back, vec![1]);
    assert_eq!(h.forward, vec![9]);
    // A reload from the history keeps the way forward.
    h.record(2, true, true);
    assert_eq!(h.back, vec![1, 2]);
    assert_eq!(h.forward, vec![9]);
    h.record(3, true, false);
    assert!(h.forward.is_empty());
}

#[test]
fn the_history_keeps_the_newest_views() {
    let mut h: ViewHistory<usize> = ViewHistory::new();
    for i in 0..MAX_HISTORY + 5 {
        h.record(i, true, false);
    }
    assert_eq!(h.back.len(), MAX_HISTORY);
    assert_eq!(h.back[0], 5);
    assert_eq!(h.back[MAX_HISTORY - 1], MAX_HISTORY + 4);
}
