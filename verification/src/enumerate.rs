//! Work enumeration: the ordered cross product of targets and usernames.
//!
//! Targets are the outer dimension and usernames the inner one, so every
//! username for one target is enumerated contiguously. Each pair becomes one
//! `AttemptDescriptor`, which also records the index of its target so that
//! the scheduler can key its per-host gate by a plain integer.

use vstd::prelude::*;

verus! {

/// One unit of work: a single authentication attempt against `target` as
/// `username`. The credential and the timeout are shared by every attempt
/// and travel separately. `host_idx` and `user_idx` are the positions of
/// `target` and `username` in the input lists.
pub struct AttemptDescriptor {
    pub host_idx: usize,
    pub user_idx: usize,
    pub target: String,
    pub username: String,
}

/// The descriptor stored at flat position `i * usernames.len() + j` is the
/// attempt of `usernames[j]` against `targets[i]`.
pub open spec fn entry_at(
    r: Seq<AttemptDescriptor>,
    targets: Seq<String>,
    usernames: Seq<String>,
    i: int,
    j: int,
) -> bool {
    let k = i * usernames.len() + j;
    &&& 0 <= k < r.len()
    &&& r[k].host_idx == i
    &&& r[k].user_idx == j
    &&& r[k].target@ == targets[i]@
    &&& r[k].username@ == usernames[j]@
}

/// `r` is the full cross product of `targets` and `usernames`: exactly
/// `targets.len() * usernames.len()` descriptors, targets outermost.
pub open spec fn is_cross_product(
    r: Seq<AttemptDescriptor>,
    targets: Seq<String>,
    usernames: Seq<String>,
) -> bool {
    &&& r.len() == targets.len() * usernames.len()
    &&& forall|i: int, j: int|
        0 <= i < targets.len() && 0 <= j < usernames.len() ==> #[trigger] entry_at(
            r,
            targets,
            usernames,
            i,
            j,
        )
}

/// Enumerate every (target, username) pair as one descriptor. An empty
/// target list or an empty username list yields an empty sequence, so such
/// a scan finishes at once with zero results.
pub fn enumerate_attempts(targets: &Vec<String>, usernames: &Vec<String>) -> (r: Vec<
    AttemptDescriptor,
>)
    requires
        targets@.len() * usernames@.len() <= usize::MAX,
    ensures
        is_cross_product(r@, targets@, usernames@),
{
    let t: usize = targets.len();
    let u: usize = usernames.len();
    let mut r: Vec<AttemptDescriptor> = Vec::new();
    let mut i: usize = 0;
    while i < t
        invariant
            t == targets@.len(),
            u == usernames@.len(),
            i <= t,
            t * u <= usize::MAX,
            r@.len() == i * u,
            forall|i0: int, j0: int|
                0 <= i0 < i && 0 <= j0 < u ==> #[trigger] entry_at(r@, targets@, usernames@, i0, j0),
        decreases t - i,
    {
        let mut j: usize = 0;
        while j < u
            invariant
                t == targets@.len(),
                u == usernames@.len(),
                i < t,
                j <= u,
                t * u <= usize::MAX,
                r@.len() == i * u + j,
                forall|i0: int, j0: int|
                    0 <= i0 < i && 0 <= j0 < u ==> #[trigger] entry_at(
                        r@,
                        targets@,
                        usernames@,
                        i0,
                        j0,
                    ),
                forall|j0: int| 0 <= j0 < j ==> #[trigger] entry_at(r@, targets@, usernames@, i as int, j0),
            decreases u - j,
        {
            proof {
                assert((i as int) * (u as int) + (j as int) < (t as int) * (u as int)) by (nonlinear_arith)
                    requires
                        0 <= i < t,
                        0 <= j < u,
                ;
            }
            let desc = AttemptDescriptor {
                host_idx: i,
                user_idx: j,
                target: targets[i].clone(),
                username: usernames[j].clone(),
            };
            let ghost old_r = r@;
            r.push(desc);
            proof {
                assert forall|i0: int, j0: int|
                    0 <= i0 < i && 0 <= j0 < u implies #[trigger] entry_at(
                    r@,
                    targets@,
                    usernames@,
                    i0,
                    j0,
                ) by {
                    assert(entry_at(old_r, targets@, usernames@, i0, j0));
                    assert(r@[i0 * (u as int) + j0] == old_r[i0 * (u as int) + j0]);
                }
                assert forall|j0: int| 0 <= j0 < j + 1 implies #[trigger] entry_at(
                    r@,
                    targets@,
                    usernames@,
                    i as int,
                    j0,
                ) by {
                    if j0 < j {
                        assert(entry_at(old_r, targets@, usernames@, i as int, j0));
                        assert(r@[(i as int) * (u as int) + j0] == old_r[(i as int) * (u as int) + j0]);
                    } else {
                        assert(r@[(i as int) * (u as int) + j0] == r@.last());
                    }
                }
            }
            j = j + 1;
        }
        proof {
            assert((i as int) * (u as int) + (u as int) == ((i as int) + 1) * (u as int))
                by (nonlinear_arith);
        }
        i = i + 1;
    }
    r
}

} // verus!
