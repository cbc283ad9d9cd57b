use vstd::prelude::*;

verus! {

/// Which completions may fire the first-completion action.
#[derive(Clone, Copy, Debug, PartialEq, Eq, Structural)]
pub enum Policy {
    /// The first completion fires, whether the unit succeeded or failed.
    AnyResult,
    /// Failures are passed over; the first success fires.
    FirstSuccess,
}

impl Default for Policy {
    fn default() -> (r: Policy)
        ensures
            r == Policy::AnyResult,
    {
        Policy::AnyResult
    }
}

/// Whether a completion with the given outcome may fire the latch under `policy`.
pub open spec fn triggers(policy: Policy, succeeded: bool) -> bool {
    match policy {
        Policy::AnyResult => true,
        Policy::FirstSuccess => succeeded,
    }
}

/// A single-fire latch: `Unarmed` until the first triggering completion is
/// observed, `Fired` from then on.
#[derive(Debug)]
pub struct WinnerGate {
    policy: Policy,
    fired: bool,
}

impl WinnerGate {
    pub closed spec fn spec_policy(&self) -> Policy {
        self.policy
    }

    pub closed spec fn spec_fired(&self) -> bool {
        self.fired
    }

    /// A fresh, unarmed gate.
    pub fn new(policy: Policy) -> (g: WinnerGate)
        ensures
            g.spec_policy() == policy,
            !g.spec_fired(),
    {
        WinnerGate { policy, fired: false }
    }

    pub fn policy(&self) -> (p: Policy)
        ensures
            p == self.spec_policy(),
    {
        self.policy
    }

    /// Whether the latch has fired.
    pub fn is_fired(&self) -> (b: bool)
        ensures
            b == self.spec_fired(),
    {
        self.fired
    }

    /// Observes one completion. Returns `true` exactly when this observation
    /// is the one that fires the latch; the caller then runs the action.
    pub fn observe(&mut self, succeeded: bool) -> (fire: bool)
        ensures
            fire == (!old(self).spec_fired() && triggers(old(self).spec_policy(), succeeded)),
            final(self).spec_fired() == (old(self).spec_fired() || fire),
            final(self).spec_policy() == old(self).spec_policy(),
    {
        if self.fired {
            false
        } else {
            let fire = match self.policy {
                Policy::AnyResult => true,
                Policy::FirstSuccess => succeeded,
            };
            if fire {
                self.fired = true;
            }
            fire
        }
    }
}

} // verus!
