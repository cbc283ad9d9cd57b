use vstd::prelude::*;

verus! {

/// How many sounds a run plays: the start sound and the finish sound, each
/// if one was given.
pub fn sounds_to_play(has_start: bool, has_finish: bool) -> (n: usize)
    ensures
        n == (if has_start { 1int } else { 0int }) + (if has_finish { 1int } else { 0int }),
{
    let mut n: usize = 0;
    if has_start {
        n = n + 1;
    }
    if has_finish {
        n = n + 1;
    }
    n
}

/// Follows a player's status events until the expected number of sounds
/// have stopped.
#[derive(Debug)]
pub struct PlaybackWatch {
    expected: usize,
    stopped: usize,
}

impl PlaybackWatch {
    pub closed spec fn spec_expected(&self) -> nat {
        self.expected as nat
    }

    pub closed spec fn spec_stopped(&self) -> nat {
        self.stopped as nat
    }

    pub closed spec fn wf(&self) -> bool {
        self.stopped <= self.expected
    }

    /// A watch waiting for `expected` sounds to stop.
    pub fn new(expected: usize) -> (w: PlaybackWatch)
        ensures
            w.wf(),
            w.spec_expected() == expected,
            w.spec_stopped() == 0,
    {
        PlaybackWatch { expected, stopped: 0 }
    }

    /// Whether every expected sound has stopped; no further event is needed.
    pub fn is_done(&self) -> (b: bool)
        requires
            self.wf(),
        ensures
            b == (self.spec_stopped() == self.spec_expected()),
    {
        self.stopped == self.expected
    }

    /// How many sounds have stopped so far.
    pub fn stopped(&self) -> (n: usize)
        ensures
            n == self.spec_stopped(),
    {
        self.stopped
    }

    /// Takes one status event (`is_stopped` for a "stopped" event, `false`
    /// for a position report). Returns whether the watch is now done.
    pub fn observe(&mut self, is_stopped: bool) -> (done: bool)
        requires
            old(self).wf(),
        ensures
            final(self).wf(),
            final(self).spec_expected() == old(self).spec_expected(),
            final(self).spec_stopped() == if is_stopped && old(self).spec_stopped() < old(self).spec_expected() {
                old(self).spec_stopped() + 1
            } else {
                old(self).spec_stopped()
            },
            done == (final(self).spec_stopped() == final(self).spec_expected()),
    {
        if is_stopped && self.stopped < self.expected {
            self.stopped = self.stopped + 1;
        }
        self.stopped == self.expected
    }
}

} // verus!
