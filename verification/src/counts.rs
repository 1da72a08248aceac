//! Counting over the vector of attempt states.
//!
//! The scheduler's two admission ceilings are stated as bounds on counts of
//! attempt states: how many attempts hold a global execution slot, how many
//! run against one host, and how many have resolved. These spec functions
//! define those counts, and the lemmas here say how a single transition
//! (one point update of the state vector) moves each count.

use vstd::prelude::*;

verus! {

/// The life cycle of one enumerated attempt, as the scheduler sees it.
///
/// `Pending` — not yet admitted. `WaitingGate` — holds a global execution
/// slot and waits for its host's gate. `Running` — holds both its global
/// slot and one slot of its host's gate. `Completed` — resolved; holds
/// nothing.
#[derive(Clone, Copy, Debug, PartialEq, Eq, Structural)]
pub enum AttemptState {
    Pending,
    WaitingGate,
    Running,
    Completed,
}

/// An attempt in this state holds a global execution slot.
pub open spec fn holds_slot(s: AttemptState) -> bool {
    s is WaitingGate || s is Running
}

/// How many attempts hold a global execution slot.
pub open spec fn count_slots(s: Seq<AttemptState>) -> int
    decreases s.len(),
{
    if s.len() == 0 {
        0
    } else {
        count_slots(s.drop_last()) + if holds_slot(s.last()) {
            1int
        } else {
            0int
        }
    }
}

/// How many attempts are running against host `h`, where `hosts` gives
/// each attempt's host index.
pub open spec fn count_running_on(s: Seq<AttemptState>, hosts: Seq<usize>, h: int) -> int
    recommends
        s.len() == hosts.len(),
    decreases s.len(),
{
    if s.len() == 0 {
        0
    } else {
        count_running_on(s.drop_last(), hosts.drop_last(), h) + if s.last() is Running
            && hosts.last() as int == h {
            1int
        } else {
            0int
        }
    }
}

/// How many attempts have resolved.
pub open spec fn count_completed(s: Seq<AttemptState>) -> int
    decreases s.len(),
{
    if s.len() == 0 {
        0
    } else {
        count_completed(s.drop_last()) + if s.last() is Completed {
            1int
        } else {
            0int
        }
    }
}

/// In a sequence of attempts that are all pending, every count is zero.
pub proof fn lemma_counts_all_pending(s: Seq<AttemptState>, hosts: Seq<usize>, h: int)
    requires
        s.len() == hosts.len(),
        forall|k: int| 0 <= k < s.len() ==> (#[trigger] s[k]) is Pending,
    ensures
        count_slots(s) == 0,
        count_running_on(s, hosts, h) == 0,
        count_completed(s) == 0,
    decreases s.len(),
{
    if s.len() > 0 {
        lemma_counts_all_pending(s.drop_last(), hosts.drop_last(), h);
    }
}

/// Updating one attempt's state moves the slot count by the difference of
/// the two states' contributions.
pub proof fn lemma_count_slots_update(s: Seq<AttemptState>, i: int, v: AttemptState)
    requires
        0 <= i < s.len(),
    ensures
        count_slots(s.update(i, v)) == count_slots(s) + (if holds_slot(v) {
            1int
        } else {
            0int
        }) - (if holds_slot(s[i]) {
            1int
        } else {
            0int
        }),
    decreases s.len(),
{
    let t = s.update(i, v);
    if i == s.len() - 1 {
        assert(t.drop_last() =~= s.drop_last());
    } else {
        assert(t.drop_last() =~= s.drop_last().update(i, v));
        lemma_count_slots_update(s.drop_last(), i, v);
    }
}

/// Updating one attempt's state moves each host's running count by the
/// difference of the two states' contributions for that host.
pub proof fn lemma_count_running_update(
    s: Seq<AttemptState>,
    hosts: Seq<usize>,
    h: int,
    i: int,
    v: AttemptState,
)
    requires
        s.len() == hosts.len(),
        0 <= i < s.len(),
    ensures
        count_running_on(s.update(i, v), hosts, h) == count_running_on(s, hosts, h) + (if v
            is Running && hosts[i] as int == h {
            1int
        } else {
            0int
        }) - (if s[i] is Running && hosts[i] as int == h {
            1int
        } else {
            0int
        }),
    decreases s.len(),
{
    let t = s.update(i, v);
    if i == s.len() - 1 {
        assert(t.drop_last() =~= s.drop_last());
    } else {
        assert(t.drop_last() =~= s.drop_last().update(i, v));
        lemma_count_running_update(s.drop_last(), hosts.drop_last(), h, i, v);
    }
}

/// Updating one attempt's state moves the completed count by the difference
/// of the two states' contributions.
pub proof fn lemma_count_completed_update(s: Seq<AttemptState>, i: int, v: AttemptState)
    requires
        0 <= i < s.len(),
    ensures
        count_completed(s.update(i, v)) == count_completed(s) + (if v is Completed {
            1int
        } else {
            0int
        }) - (if s[i] is Completed {
            1int
        } else {
            0int
        }),
    decreases s.len(),
{
    let t = s.update(i, v);
    if i == s.len() - 1 {
        assert(t.drop_last() =~= s.drop_last());
    } else {
        assert(t.drop_last() =~= s.drop_last().update(i, v));
        lemma_count_completed_update(s.drop_last(), i, v);
    }
}

/// An attempt that holds a global slot witnesses a slot count of at least one.
pub proof fn lemma_count_slots_at_least_one(s: Seq<AttemptState>, i: int)
    requires
        0 <= i < s.len(),
        holds_slot(s[i]),
    ensures
        count_slots(s) >= 1,
    decreases s.len(),
{
    if i == s.len() - 1 {
        lemma_count_slots_nonneg(s.drop_last());
    } else {
        lemma_count_slots_at_least_one(s.drop_last(), i);
    }
}

/// The slot count is never negative.
pub proof fn lemma_count_slots_nonneg(s: Seq<AttemptState>)
    ensures
        count_slots(s) >= 0,
    decreases s.len(),
{
    if s.len() > 0 {
        lemma_count_slots_nonneg(s.drop_last());
    }
}

/// The running count of any host is never negative.
pub proof fn lemma_count_running_nonneg(s: Seq<AttemptState>, hosts: Seq<usize>, h: int)
    requires
        s.len() == hosts.len(),
    ensures
        count_running_on(s, hosts, h) >= 0,
    decreases s.len(),
{
    if s.len() > 0 {
        lemma_count_running_nonneg(s.drop_last(), hosts.drop_last(), h);
    }
}

/// An attempt running against `h` witnesses a running count for `h` of at
/// least one.
pub proof fn lemma_count_running_at_least_one(
    s: Seq<AttemptState>,
    hosts: Seq<usize>,
    h: int,
    i: int,
)
    requires
        s.len() == hosts.len(),
        0 <= i < s.len(),
        s[i] is Running,
        hosts[i] as int == h,
    ensures
        count_running_on(s, hosts, h) >= 1,
    decreases s.len(),
{
    if i == s.len() - 1 {
        lemma_count_running_nonneg(s.drop_last(), hosts.drop_last(), h);
    } else {
        lemma_count_running_at_least_one(s.drop_last(), hosts.drop_last(), h, i);
    }
}

/// Two distinct attempts running against the same host witness a running
/// count for that host of at least two.
pub proof fn lemma_count_running_at_least_two(
    s: Seq<AttemptState>,
    hosts: Seq<usize>,
    h: int,
    i: int,
    j: int,
)
    requires
        s.len() == hosts.len(),
        0 <= i < s.len(),
        0 <= j < s.len(),
        i != j,
        s[i] is Running,
        s[j] is Running,
        hosts[i] as int == h,
        hosts[j] as int == h,
    ensures
        count_running_on(s, hosts, h) >= 2,
    decreases s.len(),
{
    if i == s.len() - 1 {
        lemma_count_running_at_least_one(s.drop_last(), hosts.drop_last(), h, j);
    } else if j == s.len() - 1 {
        lemma_count_running_at_least_one(s.drop_last(), hosts.drop_last(), h, i);
    } else {
        lemma_count_running_at_least_two(s.drop_last(), hosts.drop_last(), h, i, j);
    }
}

/// The completed count stays between zero and the number of attempts, and
/// equals the number of attempts exactly when every attempt has resolved.
pub proof fn lemma_count_completed_full(s: Seq<AttemptState>)
    ensures
        0 <= count_completed(s) <= s.len(),
        count_completed(s) == s.len() <==> (forall|k: int|
            0 <= k < s.len() ==> (#[trigger] s[k]) is Completed),
    decreases s.len(),
{
    if s.len() > 0 {
        let d = s.drop_last();
        lemma_count_completed_full(d);
        assert(forall|k: int| 0 <= k < d.len() ==> #[trigger] d[k] == s[k]);
        if count_completed(s) == s.len() {
            assert(count_completed(d) == d.len());
            assert forall|k: int| 0 <= k < s.len() implies (#[trigger] s[k]) is Completed by {
                if k < d.len() {
                    assert(d[k] is Completed);
                } else {
                    assert(s[k] == s.last());
                }
            }
        }
        if forall|k: int| 0 <= k < s.len() ==> (#[trigger] s[k]) is Completed {
            assert forall|k: int| 0 <= k < d.len() implies (#[trigger] d[k]) is Completed by {
                assert(s[k] is Completed);
            }
            assert(s.last() is Completed);
            assert(count_completed(s) == s.len());
        }
    }
}

} // verus!
