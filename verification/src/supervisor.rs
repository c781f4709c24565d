//! The supervisor's view of its worker pool.
//!
//! The supervisor owns a fixed number of worker slots.  Each slot has a
//! stable numeric identity (used to attribute logs) and a generation
//! counter that grows by one every time the slot's process is respawned.
//! The supervision loop observes exits and then restarts every dead slot,
//! so after each round the full pool is live again.

use vstd::prelude::*;

verus! {

/// One tracked worker process.
pub struct WorkerSlot {
    /// Stable identity handed to the process, 1-based; survives restarts.
    pub identity: u64,
    /// How many processes have been spawned for this slot so far.
    pub generation: u64,
    /// Whether the supervisor believes the process is running.
    pub alive: bool,
}

/// Number of slots among the first `n` believed live.
pub open spec fn live_count_to(slots: Seq<WorkerSlot>, n: int) -> int
    decreases n,
{
    if n <= 0 {
        0
    } else {
        live_count_to(slots, n - 1) + if slots[n - 1].alive {
            1int
        } else {
            0int
        }
    }
}

/// The fixed pool of worker processes owned by the supervisor.
pub struct WorkerPool {
    pub slots: Vec<WorkerSlot>,
}

impl WorkerPool {
    /// Slot `i` always carries identity `i + 1`.
    pub open spec fn wf(&self) -> bool {
        forall|i: int| 0 <= i < self.slots@.len() ==> self.slots@[i].identity == i + 1
    }

    /// Number of slots believed live.
    pub open spec fn live_count(&self) -> int {
        live_count_to(self.slots@, self.slots@.len() as int)
    }

    /// Spawns the initial pool: `n` live slots with identities `1..=n`,
    /// each on its first generation.
    pub fn new_pool(n: usize) -> (p: Self)
        requires
            n < u64::MAX,
        ensures
            p.wf(),
            p.slots@.len() == n,
            forall|i: int|
                0 <= i < n ==> (p.slots@[i].generation == 1 && p.slots@[i].alive),
            p.live_count() == n,
    {
        let mut slots: Vec<WorkerSlot> = Vec::new();
        let mut i: usize = 0;
        while i < n
            invariant
                i <= n,
                n < u64::MAX,
                slots@.len() == i,
                forall|k: int|
                    0 <= k < i ==> (slots@[k].identity == k + 1 && slots@[k].generation == 1
                        && slots@[k].alive),
            decreases n - i,
        {
            slots.push(WorkerSlot { identity: (i as u64) + 1, generation: 1, alive: true });
            i = i + 1;
        }
        let p = WorkerPool { slots };
        proof {
            lemma_live_count_all_alive(p.slots@, p.slots@.len() as int);
        }
        p
    }

    /// Notes that the process in slot `i` has exited.  Only that slot's
    /// liveness changes.
    pub fn observe_exit(&mut self, i: usize)
        requires
            i < old(self).slots@.len(),
        ensures
            final(self).slots@.len() == old(self).slots@.len(),
            forall|k: int|
                0 <= k < old(self).slots@.len() && k != i ==> final(self).slots@[k] == old(self).slots@[k],
            final(self).slots@[i as int].identity == old(self).slots@[i as int].identity,
            final(self).slots@[i as int].generation == old(self).slots@[i as int].generation,
            !final(self).slots@[i as int].alive,
            old(self).wf() ==> final(self).wf(),
    {
        self.slots[i].alive = false;
    }

    /// One supervision round: every dead slot is respawned under its old
    /// identity with the next generation; live slots are untouched.  After
    /// the round the whole pool is live again, so the live count is back
    /// to the pool size.
    pub fn restart_dead(&mut self)
        requires
            forall|k: int|
                0 <= k < old(self).slots@.len() ==> old(self).slots@[k].generation < u64::MAX,
        ensures
            final(self).slots@.len() == old(self).slots@.len(),
            forall|k: int|
                0 <= k < old(self).slots@.len() && old(self).slots@[k].alive ==> final(self).slots@[k] == old(self).slots@[k],
            forall|k: int|
                0 <= k < old(self).slots@.len() && !old(self).slots@[k].alive ==> (final(self).slots@[k].identity == old(self).slots@[k].identity
                    && final(self).slots@[k].generation == old(self).slots@[k].generation + 1
                    && final(self).slots@[k].alive),
            forall|k: int| 0 <= k < final(self).slots@.len() ==> final(self).slots@[k].alive,
            final(self).live_count() == final(self).slots@.len(),
            old(self).wf() ==> final(self).wf(),
    {
        let mut i: usize = 0;
        while i < self.slots.len()
            invariant
                self.slots@.len() == old(self).slots@.len(),
                i <= self.slots@.len(),
                forall|k: int|
                    0 <= k < old(self).slots@.len() ==> old(self).slots@[k].generation < u64::MAX,
                forall|k: int|
                    i <= k < old(self).slots@.len() ==> self.slots@[k] == old(self).slots@[k],
                forall|k: int|
                    0 <= k < i && old(self).slots@[k].alive ==> self.slots@[k] == old(self).slots@[k],
                forall|k: int|
                    0 <= k < i && !old(self).slots@[k].alive ==> (self.slots@[k].identity == old(self).slots@[k].identity
                        && self.slots@[k].generation == old(self).slots@[k].generation + 1
                        && self.slots@[k].alive),
                forall|k: int| 0 <= k < i ==> self.slots@[k].alive,
            decreases self.slots@.len() - i,
        {
            if !self.slots[i].alive {
                let g = self.slots[i].generation;
                self.slots[i].generation = g + 1;
                self.slots[i].alive = true;
            }
            i = i + 1;
        }
        proof {
            lemma_live_count_all_alive(self.slots@, self.slots@.len() as int);
        }
    }
}

/// If the first `n` slots are all live, they count `n`.
pub proof fn lemma_live_count_all_alive(slots: Seq<WorkerSlot>, n: int)
    requires
        0 <= n <= slots.len(),
        forall|k: int| 0 <= k < n ==> slots[k].alive,
    ensures
        live_count_to(slots, n) == n,
    decreases n,
{
    if n > 0 {
        lemma_live_count_all_alive(slots, n - 1);
    }
}

} // verus!
