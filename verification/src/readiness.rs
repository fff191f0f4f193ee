use vstd::prelude::*;

verus! {

/// The Readiness Signal: a single-producer broadcast of the latest
/// liveness boolean. The version counts actual transitions, so a waiter
/// that remembered the version it last observed wakes exactly when a real
/// transition happened: publishing an unchanged value wakes nobody.
#[derive(Clone, Copy, Debug, PartialEq, Eq, Structural)]
pub struct ReadinessSignal {
    pub value: bool,
    pub version: u64,
}

impl ReadinessSignal {
    /// A fresh signal starts not-ready.
    pub fn new() -> (r: ReadinessSignal)
        ensures
            r.value == false,
            r.version == 0,
    {
        ReadinessSignal { value: false, version: 0 }
    }

    /// Publish a value: idempotent on equal values, a transition otherwise.
    pub fn publish(&mut self, v: bool)
        requires
            old(self).version < u64::MAX,
        ensures
            v == old(self).value ==> *final(self) == *old(self),
            v != old(self).value ==> final(self).value == v && final(self).version == old(
                self,
            ).version + 1,
    {
        if v != self.value {
            self.value = v;
            self.version = self.version + 1;
        }
    }

    /// The current value, as a late subscriber observes it immediately.
    pub fn current(&self) -> (r: bool)
        ensures
            r == self.value,
    {
        self.value
    }

    /// Whether a consumer that saw `observed_version` has a transition to
    /// wake up for.
    pub fn has_changed_since(&self, observed_version: u64) -> (r: bool)
        ensures
            r == (self.version != observed_version),
    {
        self.version != observed_version
    }

    /// Whether `wait_until_true` completes without suspending.
    pub fn may_proceed(&self) -> (r: bool)
        ensures
            r == self.value,
    {
        self.value
    }
}

} // verus!
