//! A counting model of the process-wide probe concurrency gate. The
//! running system uses an asynchronous semaphore for the actual
//! blocking; this model carries the bound that primitive is trusted to
//! keep — the number of slots handed out never exceeds the configured
//! capacity — and proves it invariant under every acquire and release.

use vstd::prelude::*;

verus! {

/// A bounded counting resource pool: `in_flight` slots of `capacity`
/// are currently handed out.
pub struct Limiter {
    capacity: u64,
    in_flight: u64,
}

impl Limiter {
    /// The bound the pool exists for: never more slots out than its
    /// capacity, and a positive capacity.
    pub closed spec fn wf(&self) -> bool {
        self.capacity > 0 && self.in_flight <= self.capacity
    }

    pub closed spec fn spec_capacity(&self) -> u64 {
        self.capacity
    }

    pub closed spec fn spec_in_flight(&self) -> u64 {
        self.in_flight
    }

    /// A fresh pool with `capacity` free slots.
    pub fn new(capacity: u64) -> (r: Limiter)
        requires
            capacity > 0,
        ensures
            r.wf(),
            r.spec_capacity() == capacity,
            r.spec_in_flight() == 0,
    {
        Limiter { capacity, in_flight: 0 }
    }

    /// Hands out a slot when one is free; a caller that gets `false`
    /// must wait and ask again.
    pub fn try_acquire(&mut self) -> (r: bool)
        requires
            old(self).wf(),
        ensures
            final(self).wf(),
            final(self).spec_capacity() == old(self).spec_capacity(),
            r == (old(self).spec_in_flight() < old(self).spec_capacity()),
            r ==> final(self).spec_in_flight() == old(self).spec_in_flight() + 1,
            !r ==> final(self).spec_in_flight() == old(self).spec_in_flight(),
    {
        if self.in_flight < self.capacity {
            self.in_flight = self.in_flight + 1;
            true
        } else {
            false
        }
    }

    /// Returns a slot when its probe completes, success or failure.
    pub fn release(&mut self)
        requires
            old(self).wf(),
            old(self).spec_in_flight() > 0,
        ensures
            final(self).wf(),
            final(self).spec_capacity() == old(self).spec_capacity(),
            final(self).spec_in_flight() == old(self).spec_in_flight() - 1,
    {
        self.in_flight = self.in_flight - 1;
    }
}

} // verus!
