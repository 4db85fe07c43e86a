//! The decisions of the resource watchers: which readings to pass on, and
//! the pairing of a stream with the waits between its items.
use vstd::prelude::*;

verus! {

/// Passes on a reading only when its text differs from the last one passed
/// on. Before the first, the last text counts as empty, so an empty first
/// reading is not passed on and any other is.
pub struct OnChanges {
    current: String,
}

impl OnChanges {
    /// The last text passed on (empty before the first).
    pub closed spec fn spec_current(&self) -> Seq<char> {
        self.current@
    }

    pub fn new() -> (r: OnChanges)
        ensures
            r.spec_current() == Seq::<char>::empty(),
    {
        OnChanges { current: String::new() }
    }

    /// Offers a new reading: it is passed on, and remembered, if and only if
    /// it differs from the last text passed on.
    pub fn offer(&mut self, new: String) -> (r: Option<String>)
        ensures
            new@ != old(self).spec_current() ==> (r matches Some(t) && t@ == new@
                && final(self).spec_current() == new@),
            new@ == old(self).spec_current() ==> r is None && final(self).spec_current()
                == old(self).spec_current(),
    {
        if new == self.current {
            None
        } else {
            self.current = new.clone();
            Some(new)
        }
    }
}

/// A stream paired with a factory of waits: the stream's next item is asked
/// for only once the wait started after the previous item has ended.
pub struct Periodise<St, F, Fut> {
    pub stream: St,
    pub waiter_factory: F,
    /// The wait that runs, if one was started.
    pub future: Option<Fut>,
}

impl<St, F, Fut> Periodise<St, F, Fut> {
    /// Pairs `stream` with `waiter_factory`; no wait runs yet.
    pub fn new(stream: St, waiter_factory: F) -> (r: Self)
        ensures
            r.stream == stream,
            r.waiter_factory == waiter_factory,
            r.future is None,
    {
        Periodise { stream, waiter_factory, future: None }
    }
}

} // verus!
