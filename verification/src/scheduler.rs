//! The scheduler: two-tier admission control over the enumerated attempts.
//!
//! Every attempt must hold a global execution slot (at most `tasks` of them
//! exist) before it may wait for its host's gate, and one slot of that gate
//! (at most `maxconns` per host) before it may run its network stages. The
//! scheduler is the verified model of those decisions: the surrounding
//! binary asks it whether an attempt may start, whether its gate admits it,
//! and records each completion. Both ceilings are part of the scheduler's
//! well-formedness, which every transition preserves, so they hold at every
//! reachable instant of a scan. Completion order is unconstrained: any
//! running attempt may complete at any time.

use vstd::prelude::*;

use crate::counts::AttemptState;
use crate::counts::count_completed;
use crate::counts::count_running_on;
use crate::counts::count_slots;
use crate::counts::holds_slot;
use crate::counts::lemma_count_completed_full;
use crate::counts::lemma_count_completed_update;
use crate::counts::lemma_count_running_at_least_one;
use crate::counts::lemma_count_running_at_least_two;
use crate::counts::lemma_count_running_update;
use crate::counts::lemma_count_slots_at_least_one;
use crate::counts::lemma_count_slots_update;
use crate::counts::lemma_counts_all_pending;
use crate::enumerate::AttemptDescriptor;

verus! {

/// The state of one scan: per-attempt life cycle states, the host index of
/// each attempt, and the cached occupancy of the global ceiling and of each
/// host's gate.
pub struct Scheduler {
    /// Global execution ceiling: how many attempts may hold a slot at once.
    pub tasks: usize,
    /// Per-host gate capacity: how many attempts may run against one host at once.
    pub maxconns: u32,
    /// Number of distinct hosts; gates are keyed by host index.
    pub num_hosts: usize,
    /// Host index of each attempt, in enumeration order.
    pub host_of: Vec<usize>,
    /// Life cycle state of each attempt.
    pub states: Vec<AttemptState>,
    /// Attempts before this index have been admitted; later ones are pending.
    pub next_pending: usize,
    /// How many attempts currently hold a global execution slot.
    pub slots_held: usize,
    /// How many attempts currently run against each host.
    pub gate_held: Vec<u32>,
    /// How many attempts have resolved.
    pub completed: usize,
}

impl Scheduler {
    /// The number of enumerated attempts this scan drives.
    pub open spec fn total(self) -> int {
        self.states@.len() as int
    }

    /// Well-formedness: the cached counts agree with the state vector, the
    /// pending region is exactly the tail, and both admission ceilings hold.
    /// Constructors establish it and every transition preserves it, so it
    /// holds at every reachable instant of a scan.
    pub open spec fn wf(self) -> bool {
        &&& self.tasks >= 1
        &&& self.maxconns >= 1
        &&& self.host_of@.len() == self.states@.len()
        &&& self.gate_held@.len() == self.num_hosts
        &&& forall|k: int|
            0 <= k < self.host_of@.len() ==> (#[trigger] self.host_of@[k]) < self.num_hosts
        &&& self.next_pending <= self.states@.len()
        &&& forall|k: int|
            self.next_pending <= k < self.states@.len() ==> (#[trigger] self.states@[k]) is Pending
        &&& forall|k: int| 0 <= k < self.next_pending ==> !((#[trigger] self.states@[k]) is Pending)
        &&& self.slots_held == count_slots(self.states@)
        &&& forall|h: int|
            0 <= h < self.num_hosts ==> (#[trigger] self.gate_held@[h]) as int == count_running_on(
                self.states@,
                self.host_of@,
                h,
            )
        &&& self.completed == count_completed(self.states@)
        &&& self.slots_held <= self.tasks
        &&& forall|h: int| 0 <= h < self.num_hosts ==> (#[trigger] self.gate_held@[h]) <= self.maxconns
    }

    /// Set up a scan over the given descriptors: every attempt pending,
    /// every slot and gate free. A scan over zero descriptors is complete
    /// from the start.
    pub fn new(tasks: usize, maxconns: u32, num_hosts: usize, descs: &Vec<AttemptDescriptor>) -> (r:
        Scheduler)
        requires
            tasks >= 1,
            maxconns >= 1,
            forall|k: int|
                0 <= k < descs@.len() ==> (#[trigger] descs@[k].host_idx) < num_hosts,
        ensures
            r.wf(),
            r.tasks == tasks,
            r.maxconns == maxconns,
            r.num_hosts == num_hosts,
            r.total() == descs@.len(),
            forall|k: int|
                0 <= k < descs@.len() ==> (#[trigger] r.host_of@[k]) == descs@[k].host_idx,
            forall|k: int| 0 <= k < r.total() ==> (#[trigger] r.states@[k]) is Pending,
            r.next_pending == 0,
            r.slots_held == 0,
            r.completed == 0,
    {
        let n: usize = descs.len();
        let mut host_of: Vec<usize> = Vec::new();
        let mut states: Vec<AttemptState> = Vec::new();
        let mut k: usize = 0;
        while k < n
            invariant
                n == descs@.len(),
                k <= n,
                host_of@.len() == k,
                states@.len() == k,
                forall|k0: int|
                    0 <= k0 < descs@.len() ==> (#[trigger] descs@[k0].host_idx) < num_hosts,
                forall|k0: int|
                    0 <= k0 < k ==> (#[trigger] host_of@[k0]) == descs@[k0].host_idx,
                forall|k0: int| 0 <= k0 < k ==> (#[trigger] states@[k0]) is Pending,
            decreases n - k,
        {
            host_of.push(descs[k].host_idx);
            states.push(AttemptState::Pending);
            k = k + 1;
        }
        let mut gate_held: Vec<u32> = Vec::new();
        let mut h: usize = 0;
        while h < num_hosts
            invariant
                h <= num_hosts,
                gate_held@.len() == h,
                forall|h0: int| 0 <= h0 < h ==> (#[trigger] gate_held@[h0]) == 0,
            decreases num_hosts - h,
        {
            gate_held.push(0);
            h = h + 1;
        }
        let r = Scheduler {
            tasks,
            maxconns,
            num_hosts,
            host_of,
            states,
            next_pending: 0,
            slots_held: 0,
            gate_held,
            completed: 0,
        };
        proof {
            assert forall|h0: int| 0 <= h0 < r.num_hosts implies (#[trigger] r.gate_held@[h0]) as int
                == count_running_on(r.states@, r.host_of@, h0) by {
                lemma_counts_all_pending(r.states@, r.host_of@, h0);
            }
            lemma_counts_all_pending(r.states@, r.host_of@, 0);
        }
        r
    }

    /// Admit the next pending attempt if a global execution slot is free.
    ///
    /// Returns the admitted attempt's index, in enumeration order; the
    /// attempt then holds a global slot and waits for its host's gate.
    /// Returns nothing exactly when the ceiling is saturated or no attempt
    /// is pending, and then changes nothing.
    pub fn try_start(&mut self) -> (r: Option<usize>)
        requires
            old(self).wf(),
        ensures
            final(self).wf(),
            final(self).tasks == old(self).tasks,
            final(self).maxconns == old(self).maxconns,
            final(self).num_hosts == old(self).num_hosts,
            final(self).host_of == old(self).host_of,
            final(self).total() == old(self).total(),
            r is Some <==> (old(self).slots_held < old(self).tasks && old(self).next_pending < old(
                self,
            ).total()),
            r matches Some(i) ==> i == old(self).next_pending && final(self).states@ == old(
                self,
            ).states@.update(i as int, AttemptState::WaitingGate) && final(self).next_pending == i
                + 1 && final(self).slots_held == old(self).slots_held + 1 && final(self).completed
                == old(self).completed && final(self).gate_held == old(self).gate_held,
            r is None ==> *final(self) == *old(self),
    {
        if self.slots_held < self.tasks && self.next_pending < self.states.len() {
            let i = self.next_pending;
            proof {
                lemma_count_slots_update(self.states@, i as int, AttemptState::WaitingGate);
                lemma_count_completed_update(self.states@, i as int, AttemptState::WaitingGate);
                assert forall|h: int| 0 <= h < self.num_hosts implies count_running_on(
                    self.states@.update(i as int, AttemptState::WaitingGate),
                    self.host_of@,
                    h,
                ) == count_running_on(self.states@, self.host_of@, h) by {
                    lemma_count_running_update(
                        self.states@,
                        self.host_of@,
                        h,
                        i as int,
                        AttemptState::WaitingGate,
                    );
                }
            }
            self.states[i] = AttemptState::WaitingGate;
            self.next_pending = i + 1;
            self.slots_held = self.slots_held + 1;
            Some(i)
        } else {
            None
        }
    }

    /// Let an admitted attempt try to take one slot of its host's gate.
    ///
    /// Succeeds exactly when fewer than `maxconns` attempts are running
    /// against that host; the attempt is then running. Fails without
    /// changing anything when that gate is full; the attempt holds on to
    /// its global slot and can ask once more when some attempt running
    /// against that host completes.
    pub fn try_acquire_gate(&mut self, i: usize) -> (r: bool)
        requires
            old(self).wf(),
            i < old(self).total(),
            old(self).states@[i as int] is WaitingGate,
        ensures
            final(self).wf(),
            final(self).tasks == old(self).tasks,
            final(self).maxconns == old(self).maxconns,
            final(self).num_hosts == old(self).num_hosts,
            final(self).host_of == old(self).host_of,
            final(self).total() == old(self).total(),
            r <==> old(self).gate_held@[old(self).host_of@[i as int] as int] < old(self).maxconns,
            r ==> final(self).states@ == old(self).states@.update(i as int, AttemptState::Running)
                && final(self).gate_held@ == old(self).gate_held@.update(
                old(self).host_of@[i as int] as int,
                (old(self).gate_held@[old(self).host_of@[i as int] as int] + 1) as u32,
            ) && final(self).slots_held == old(self).slots_held && final(self).completed == old(
                self,
            ).completed && final(self).next_pending == old(self).next_pending,
            !r ==> *final(self) == *old(self),
    {
        let h = self.host_of[i];
        if self.gate_held[h] < self.maxconns {
            proof {
                lemma_count_slots_update(self.states@, i as int, AttemptState::Running);
                lemma_count_completed_update(self.states@, i as int, AttemptState::Running);
                assert forall|h0: int| 0 <= h0 < self.num_hosts implies count_running_on(
                    self.states@.update(i as int, AttemptState::Running),
                    self.host_of@,
                    h0,
                ) == count_running_on(self.states@, self.host_of@, h0) + (if h0 == h as int {
                    1int
                } else {
                    0int
                }) by {
                    lemma_count_running_update(
                        self.states@,
                        self.host_of@,
                        h0,
                        i as int,
                        AttemptState::Running,
                    );
                }
            }
            self.states[i] = AttemptState::Running;
            let held = self.gate_held[h];
            self.gate_held[h] = held + 1;
            true
        } else {
            false
        }
    }

    /// Record that a running attempt has resolved, with either outcome.
    ///
    /// The attempt releases its global execution slot and its host's gate
    /// slot on this one exit path, whatever its result was — success,
    /// stage failure or connect timeout. Afterwards that gate is strictly
    /// below its cap, so an attempt waiting on the same host can acquire it.
    pub fn complete(&mut self, i: usize)
        requires
            old(self).wf(),
            i < old(self).total(),
            old(self).states@[i as int] is Running,
        ensures
            final(self).wf(),
            final(self).tasks == old(self).tasks,
            final(self).maxconns == old(self).maxconns,
            final(self).num_hosts == old(self).num_hosts,
            final(self).host_of == old(self).host_of,
            final(self).total() == old(self).total(),
            final(self).next_pending == old(self).next_pending,
            final(self).states@ == old(self).states@.update(i as int, AttemptState::Completed),
            final(self).slots_held == old(self).slots_held - 1,
            final(self).completed == old(self).completed + 1,
            final(self).gate_held@ == old(self).gate_held@.update(
                old(self).host_of@[i as int] as int,
                (old(self).gate_held@[old(self).host_of@[i as int] as int] - 1) as u32,
            ),
            final(self).gate_held@[old(self).host_of@[i as int] as int] < old(self).maxconns,
    {
        let h = self.host_of[i];
        let n: usize = self.states.len();
        proof {
            lemma_count_slots_at_least_one(self.states@, i as int);
            lemma_count_running_at_least_one(self.states@, self.host_of@, h as int, i as int);
            lemma_count_completed_full(self.states@);
            assert(self.completed < self.states@.len()) by {
                if self.completed == self.states@.len() {
                    assert(self.states@[i as int] is Completed);
                }
            }
            lemma_count_slots_update(self.states@, i as int, AttemptState::Completed);
            lemma_count_completed_update(self.states@, i as int, AttemptState::Completed);
            assert forall|h0: int| 0 <= h0 < self.num_hosts implies count_running_on(
                self.states@.update(i as int, AttemptState::Completed),
                self.host_of@,
                h0,
            ) == count_running_on(self.states@, self.host_of@, h0) - (if h0 == h as int {
                1int
            } else {
                0int
            }) by {
                lemma_count_running_update(
                    self.states@,
                    self.host_of@,
                    h0,
                    i as int,
                    AttemptState::Completed,
                );
            }
        }
        self.states[i] = AttemptState::Completed;
        self.slots_held = self.slots_held - 1;
        let held = self.gate_held[h];
        self.gate_held[h] = held - 1;
        assert(self.completed < n);
        self.completed = self.completed + 1;
    }

    /// The scan is done exactly when every attempt has resolved — each
    /// descriptor has produced its one result, none dropped, none counted
    /// twice.
    pub fn is_done(&self) -> (r: bool)
        requires
            self.wf(),
        ensures
            r <==> self.completed == self.total(),
            r <==> (forall|k: int| 0 <= k < self.total() ==> (#[trigger] self.states@[k]) is Completed),
    {
        proof {
            lemma_count_completed_full(self.states@);
        }
        self.completed == self.states.len()
    }
}

/// At no reachable instant do more than `tasks` attempts hold a global
/// execution slot.
pub proof fn lemma_global_ceiling(s: Scheduler)
    requires
        s.wf(),
    ensures
        count_slots(s.states@) <= s.tasks,
{
}

/// At no reachable instant do more than `maxconns` attempts targeting the
/// same host hold that host's gate, whatever `tasks` is.
pub proof fn lemma_host_ceiling(s: Scheduler, h: int)
    requires
        s.wf(),
        0 <= h < s.num_hosts,
    ensures
        count_running_on(s.states@, s.host_of@, h) <= s.maxconns,
{
    assert(s.gate_held@[h] as int == count_running_on(s.states@, s.host_of@, h));
    assert(s.gate_held@[h] <= s.maxconns);
}

/// With a per-host cap of one, attempts against a given host never overlap:
/// any two attempts running against the same host are the same attempt.
/// Attempts against distinct hosts are unconstrained by the gates.
pub proof fn lemma_serialized_per_host(s: Scheduler, i: int, j: int)
    requires
        s.wf(),
        s.maxconns == 1,
        0 <= i < s.total(),
        0 <= j < s.total(),
        s.states@[i] is Running,
        s.states@[j] is Running,
        s.host_of@[i] == s.host_of@[j],
    ensures
        i == j,
{
    if i != j {
        let h = s.host_of@[i] as int;
        lemma_count_running_at_least_two(s.states@, s.host_of@, h, i, j);
        assert(s.gate_held@[h] as int == count_running_on(s.states@, s.host_of@, h));
        assert(s.gate_held@[h] <= s.maxconns);
    }
}

/// A finished scan has resolved every enumerated attempt: as many results
/// as descriptors, exactly one per attempt.
pub proof fn lemma_done_all_resolved(s: Scheduler)
    requires
        s.wf(),
        s.completed == s.total(),
    ensures
        forall|k: int| 0 <= k < s.total() ==> (#[trigger] s.states@[k]) is Completed,
{
    lemma_count_completed_full(s.states@);
}

} // verus!
