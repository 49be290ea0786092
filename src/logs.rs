//! The error log: the latest error, shown to the user until dismissed, and the
//! lines not yet appended to the durable log file.

use vstd::prelude::*;

verus! {

pub struct LogsView {
    pub shown: bool,
    pub last_error: Seq<char>,
    pub unwritten: Seq<Seq<char>>,
}

/// `after` is `before` with `added` more lines: the earlier lines stay in
/// front, and a new line is the one shown. With no new line nothing changes.
pub open spec fn logged(before: LogsView, after: LogsView, added: nat) -> bool {
    &&& after.unwritten.len() == before.unwritten.len() + added
    &&& after.unwritten.subrange(0, before.unwritten.len() as int) == before.unwritten
    &&& (added == 0 ==> after == before)
    &&& (added > 0 ==> after.shown)
}

/// Logging in two steps is logging what both added.
pub proof fn lemma_logged_twice(a: LogsView, b: LogsView, c: LogsView, n: nat, m: nat)
    requires
        logged(a, b, n),
        logged(b, c, m),
    ensures
        logged(a, c, n + m),
{
    assert(c.unwritten.subrange(0, a.unwritten.len() as int) =~= b.unwritten.subrange(
        0,
        a.unwritten.len() as int,
    ));
}

pub struct Logs {
    show: bool,
    last_error: String,
    unwritten: Vec<String>,
}

impl View for Logs {
    type V = LogsView;

    closed spec fn view(&self) -> LogsView {
        LogsView {
            shown: self.show,
            last_error: self.last_error@,
            unwritten: self.unwritten@.map_values(|s: String| s@),
        }
    }
}

impl Logs {
    pub fn new() -> (r: Logs)
        ensures
            r@.shown == false,
            r@.last_error == "No Errors"@,
            r@.unwritten == Seq::<Seq<char>>::empty(),
    {
        let r = Logs { show: false, last_error: String::from_str("No Errors"), unwritten: Vec::new() };
        assert(r@.unwritten =~= Seq::<Seq<char>>::empty());
        r
    }

    pub fn is_shown(&self) -> (r: bool)
        ensures
            r == self@.shown,
    {
        self.show
    }

    pub fn last_error(&self) -> (r: String)
        ensures
            r@ == self@.last_error,
    {
        self.last_error.clone()
    }

    /// Records an error: it becomes the one shown, and a line for the log file.
    pub fn add_error(&mut self, err: String)
        ensures
            final(self)@ == (LogsView {
                shown: true,
                last_error: err@,
                unwritten: old(self)@.unwritten.push(err@),
            }),
            logged(old(self)@, final(self)@, 1),
    {
        self.last_error = err.clone();
        self.unwritten.push(err);
        self.show = true;
        assert(self@.unwritten =~= old(self)@.unwritten.push(err@));
        assert(self@.unwritten.subrange(0, old(self)@.unwritten.len() as int) =~= old(self)@.unwritten);
    }

    /// The user has acknowledged the shown error.
    pub fn dismiss(&mut self)
        ensures
            final(self)@ == (LogsView { shown: false, ..old(self)@ }),
    {
        self.show = false;
    }

    /// Hands over the lines for the log file, oldest first.
    pub fn take_unwritten(&mut self) -> (r: Vec<String>)
        ensures
            r@.map_values(|s: String| s@) == old(self)@.unwritten,
            final(self)@ == (LogsView { unwritten: Seq::<Seq<char>>::empty(), ..old(self)@ }),
    {
        let mut r: Vec<String> = Vec::new();
        std::mem::swap(&mut r, &mut self.unwritten);
        assert(self@.unwritten =~= Seq::<Seq<char>>::empty());
        r
    }
}

} // verus!
