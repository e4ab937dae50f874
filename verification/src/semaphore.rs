//! The counter that bounds how many chunk-writing tasks run at once.
//!
//! A task takes a permit before it writes and gives it back when it is
//! done, whether it succeeded or not. Waiting for a permit is the caller's
//! part: `acquire` only says whether one was free.

use vstd::prelude::*;

verus! {

/// A pool of permits.
#[derive(Debug)]
pub struct Semaphore {
    capacity: usize,
    permits: usize,
}

impl Semaphore {
    #[verifier::type_invariant]
    spec fn permits_within_capacity(&self) -> bool {
        self.permits <= self.capacity
    }

    /// The number of permits the pool was made with.
    pub closed spec fn size(&self) -> nat {
        self.capacity as nat
    }

    /// The number of permits that are free.
    pub closed spec fn free(&self) -> nat {
        self.permits as nat
    }

    /// The number of permits that are taken: the tasks in flight.
    pub open spec fn taken(&self) -> int {
        self.size() - self.free()
    }

    /// A pool of `permits` permits, all of them free.
    pub fn new(permits: usize) -> (pool: Self)
        ensures
            pool.size() == permits,
            pool.free() == permits,
            pool.taken() == 0,
    {
        Semaphore { capacity: permits, permits }
    }

    /// Takes a permit if one is free, and says whether it did.
    pub fn acquire(&mut self) -> (acquired: bool)
        ensures
            acquired == (old(self).free() > 0),
            final(self).size() == old(self).size(),
            final(self).free() == if acquired {
                old(self).free() - 1
            } else {
                old(self).free() as int
            },
            // Never do more tasks hold a permit than the pool was made with.
            0 <= old(self).taken() <= old(self).size(),
            0 <= final(self).taken() <= final(self).size(),
    {
        proof {
            use_type_invariant(&*self);
        }
        if self.permits == 0 {
            false
        } else {
            self.permits = self.permits - 1;
            true
        }
    }

    /// Gives a permit back. A pool whose permits are all free stays as it
    /// is.
    pub fn release(&mut self)
        ensures
            final(self).size() == old(self).size(),
            final(self).free() == if old(self).free() < old(self).size() {
                old(self).free() + 1
            } else {
                old(self).free()
            },
            0 <= final(self).taken() <= final(self).size(),
    {
        proof {
            use_type_invariant(&*self);
        }
        if self.permits < self.capacity {
            self.permits = self.permits + 1;
        }
    }

    /// The number of permits that are free.
    pub fn available(&self) -> (n: usize)
        ensures
            n == self.free(),
    {
        self.permits
    }

    /// The number of tasks that hold a permit.
    pub fn in_flight(&self) -> (n: usize)
        ensures
            n == self.taken(),
            n <= self.size(),
    {
        proof {
            use_type_invariant(self);
        }
        self.capacity - self.permits
    }
}

} // verus!
