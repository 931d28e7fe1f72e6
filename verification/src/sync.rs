//! Signals between the parts of the server: a trigger that is set once and
//! seen by everyone who waits for it, and a barrier that opens when every
//! guard that was handed out has been given back.

use vstd::prelude::*;

verus! {

/// A signal that is set once and stays set.
#[derive(Debug)]
pub struct Trigger {
    set: bool,
}

/// One who waits for a trigger, and remembers having seen it set.
#[derive(Debug)]
pub struct Waiter {
    set: bool,
}

impl Trigger {
    /// Whether the trigger has been set.
    pub closed spec fn is_set(&self) -> bool {
        self.set
    }

    /// Whether the trigger has been set.
    pub fn fired(&self) -> (r: bool)
        ensures
            r == self.is_set(),
    {
        self.set
    }

    /// One more who waits for this trigger. Who comes after the trigger has
    /// been set has seen it set from the start, and does not wait; who comes
    /// before has not.
    pub fn waiter(&self) -> (waiter: Waiter)
        ensures
            waiter.has_seen() == self.is_set(),
    {
        Waiter { set: self.set }
    }

    /// Sets the trigger. Setting it again changes nothing.
    pub fn set(&mut self)
        ensures
            final(self).is_set(),
    {
        self.set = true;
    }
}

impl Waiter {
    /// Whether the waiter has seen its trigger set.
    pub closed spec fn has_seen(&self) -> bool {
        self.set
    }

    fn new() -> (waiter: Waiter)
        ensures
            !waiter.has_seen(),
    {
        Waiter { set: false }
    }

    /// Looks at `trigger`: the wait is over once the trigger is set, and from
    /// then on for good, without another look.
    pub fn wait(&mut self, trigger: &Trigger) -> (over: bool)
        ensures
            over == (old(self).has_seen() || trigger.is_set()),
            final(self).has_seen() == over,
    {
        if self.set {
            return true;
        }
        if trigger.fired() {
            self.set = true;
            return true;
        }
        false
    }
}

/// A trigger that is not set, and one who waits for it.
pub fn condition() -> (r: (Trigger, Waiter))
    ensures
        !r.0.is_set(),
        !r.1.has_seen(),
{
    (Trigger { set: false }, Waiter::new())
}

/// A guard of a barrier. The barrier stays shut until the guard is given back.
#[derive(Debug)]
pub struct DropGuard {
    held: bool,
}

/// A barrier that opens when every guard that it handed out has been given
/// back.
#[derive(Debug)]
pub struct DropWaiter {
    guards: usize,
}

impl DropWaiter {
    /// The number of guards that are out.
    pub closed spec fn outstanding(&self) -> nat {
        self.guards as nat
    }

    /// A barrier with no guard out.
    pub fn new() -> (barrier: DropWaiter)
        ensures
            barrier.outstanding() == 0,
    {
        DropWaiter { guards: 0 }
    }

    /// The number of guards that are out.
    pub fn guards(&self) -> (n: usize)
        ensures
            n == self.outstanding(),
    {
        self.guards
    }

    /// Hands out a guard.
    pub fn guard(&mut self) -> (guard: DropGuard)
        requires
            old(self).outstanding() < usize::MAX,
        ensures
            final(self).outstanding() == old(self).outstanding() + 1,
    {
        self.guards = self.guards + 1;
        DropGuard { held: true }
    }

    /// Takes a guard back.
    pub fn release(&mut self, guard: DropGuard)
        requires
            old(self).outstanding() > 0,
        ensures
            final(self).outstanding() == old(self).outstanding() - 1,
    {
        let _ = guard;
        self.guards = self.guards - 1;
    }

    /// Whether the barrier is open: whether every guard is back.
    pub fn wait(&self) -> (open: bool)
        ensures
            open == (self.outstanding() == 0),
    {
        self.guards == 0
    }
}

} // verus!
