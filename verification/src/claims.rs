//! Claiming work: which task a next-eligible claim takes, and the grant a claim issues.
use vstd::prelude::*;

use crate::auth::Actor;
use crate::coordination::{
    live_owner, ownership_refusal, task_status, trunc_div, AttemptState, OwnedTask, TaskState,
};
use crate::text::{chars_of, str_eq};

verus! {

/// Code-point order on text: `a` sorts strictly before `b`.
pub open spec fn text_less(a: Seq<char>, b: Seq<char>) -> bool
    decreases a.len(),
{
    if a.len() == 0 {
        b.len() > 0
    } else if b.len() == 0 {
        false
    } else if a[0] != b[0] {
        (a[0] as u32) < (b[0] as u32)
    } else {
        text_less(a.drop_first(), b.drop_first())
    }
}

pub proof fn lemma_text_less_irreflexive(a: Seq<char>)
    ensures
        !text_less(a, a),
    decreases a.len(),
{
    if a.len() > 0 {
        lemma_text_less_irreflexive(a.drop_first());
    }
}

pub proof fn lemma_text_less_transitive(a: Seq<char>, b: Seq<char>, c: Seq<char>)
    requires
        text_less(a, b),
        text_less(b, c),
    ensures
        text_less(a, c),
    decreases a.len(),
{
    if a.len() > 0 && b.len() > 0 && c.len() > 0 && a[0] == b[0] && b[0] == c[0] {
        lemma_text_less_transitive(a.drop_first(), b.drop_first(), c.drop_first());
    }
}

proof fn lemma_text_less_step(a: Seq<char>, b: Seq<char>, i: int)
    requires
        0 <= i < a.len(),
        i < b.len(),
        a[i] == b[i],
    ensures
        text_less(a.skip(i), b.skip(i)) == text_less(a.skip(i + 1), b.skip(i + 1)),
{
    assert(a.skip(i).drop_first() =~= a.skip(i + 1));
    assert(b.skip(i).drop_first() =~= b.skip(i + 1));
}

/// Whether `a` sorts strictly before `b`, character by character.
pub fn chars_less(a: &Vec<char>, b: &Vec<char>) -> (r: bool)
    ensures
        r == text_less(a@, b@),
{
    let mut i: usize = 0;
    proof {
        assert(a@.skip(0) =~= a@);
        assert(b@.skip(0) =~= b@);
    }
    while i < a.len() && i < b.len()
        invariant
            i <= a.len(),
            i <= b.len(),
            text_less(a@, b@) == text_less(a@.skip(i as int), b@.skip(i as int)),
        decreases a.len() - i,
    {
        if a[i] != b[i] {
            return (a[i] as u32) < (b[i] as u32);
        }
        proof {
            lemma_text_less_step(a@, b@, i as int);
        }
        i = i + 1;
    }
    i == a.len() && i < b.len()
}

/// A task as a next-eligible claim sees it.
pub struct ClaimCandidate {
    pub id: String,
    pub priority: i64,
    pub ready_since: i64,
    pub archived: bool,
    pub task: TaskState,
}

/// The order in which next-eligible claims take tasks: lower priority value first, then the
/// task ready longest, then the smaller identity.
pub open spec fn claim_before(x: ClaimCandidate, y: ClaimCandidate) -> bool {
    ||| x.priority < y.priority
    ||| (x.priority == y.priority && x.ready_since < y.ready_since)
    ||| (x.priority == y.priority && x.ready_since == y.ready_since && text_less(x.id@, y.id@))
}

/// Whether a task can be taken by a next-eligible claim in the given mode at `now`: open,
/// not archived, no review activity, not waiting in review or integration, not blocked,
/// prerequisites done; for work also decisions and objective children ready and nobody
/// holding it; for recovery an attempt whose owner is no longer live.
pub open spec fn claim_eligible(c: ClaimCandidate, recovery: bool, now: i64) -> bool {
    let t = c.task;
    &&& !c.archived
    &&& t.lifecycle@ == "open"@
    &&& !t.is_workflow_activity
    &&& (t.workflow_phase matches Some(p) ==> p@ == "revision_needed"@)
    &&& !t.has_blocked_reason
    &&& t.dependencies_ready
    &&& if recovery {
        t.has_current_attempt && !live_owner(t, now)
    } else {
        t.objective_children_ready && t.decisions_ready && !t.has_current_attempt
    }
}

fn is_live_owner(t: &TaskState, now: i64) -> (r: bool)
    ensures
        r == live_owner(*t, now),
{
    let active = match &t.attempt_state {
        Some(s) => str_eq(s.as_str(), "active"),
        None => false,
    };
    let unexpired = match t.attempt_expires {
        Some(v) => v > now,
        None => false,
    };
    active && unexpired && t.owner_authorized
}

/// Whether `c` can be taken by a next-eligible claim in this mode at `now`.
pub fn is_claim_eligible(c: &ClaimCandidate, recovery: bool, now: i64) -> (r: bool)
    ensures
        r == claim_eligible(*c, recovery, now),
{
    let t = &c.task;
    if c.archived || !str_eq(t.lifecycle.as_str(), "open") || t.is_workflow_activity
        || t.has_blocked_reason || !t.dependencies_ready {
        return false;
    }
    let phase_ok = match &t.workflow_phase {
        Some(p) => str_eq(p.as_str(), "revision_needed"),
        None => true,
    };
    if !phase_ok {
        return false;
    }
    if recovery {
        t.has_current_attempt && !is_live_owner(t, now)
    } else {
        t.objective_children_ready && t.decisions_ready && !t.has_current_attempt
    }
}

fn is_claim_before(x: &ClaimCandidate, y: &ClaimCandidate) -> (r: bool)
    ensures
        r == claim_before(*x, *y),
{
    if x.priority != y.priority {
        return x.priority < y.priority;
    }
    if x.ready_since != y.ready_since {
        return x.ready_since < y.ready_since;
    }
    let a = chars_of(x.id.as_str());
    let b = chars_of(y.id.as_str());
    chars_less(&a, &b)
}

proof fn lemma_claim_before_transitive(x: ClaimCandidate, y: ClaimCandidate, z: ClaimCandidate)
    requires
        claim_before(x, y),
        claim_before(y, z),
    ensures
        claim_before(x, z),
{
    if x.priority == y.priority && y.priority == z.priority && x.ready_since == y.ready_since
        && y.ready_since == z.ready_since {
        lemma_text_less_transitive(x.id@, y.id@, z.id@);
    }
}

/// The task a next-eligible claim takes: the first eligible candidate in claim order, or
/// `None` when no candidate is eligible.
pub fn select_claim(candidates: &Vec<ClaimCandidate>, recovery: bool, now: i64) -> (r: Option<
    usize,
>)
    ensures
        match r {
            None => forall|j: int|
                0 <= j < candidates.len() ==> !claim_eligible(#[trigger] candidates@[j], recovery, now),
            Some(k) => {
                &&& k < candidates.len()
                &&& claim_eligible(candidates@[k as int], recovery, now)
                &&& forall|j: int|
                    0 <= j < candidates.len() && claim_eligible(#[trigger] candidates@[j], recovery, now)
                        ==> !claim_before(candidates@[j], candidates@[k as int])
                &&& !recovery ==> {
                    let t = candidates@[k as int].task;
                    t.decisions_ready && t.objective_children_ready && !t.has_current_attempt
                }
            },
        },
{
    let mut best: Option<usize> = None;
    let mut i: usize = 0;
    while i < candidates.len()
        invariant
            i <= candidates.len(),
            match best {
                None => forall|j: int|
                    0 <= j < i ==> !claim_eligible(#[trigger] candidates@[j], recovery, now),
                Some(k) => {
                    &&& k < i
                    &&& claim_eligible(candidates@[k as int], recovery, now)
                    &&& forall|j: int|
                        0 <= j < i && claim_eligible(#[trigger] candidates@[j], recovery, now)
                            ==> !claim_before(candidates@[j], candidates@[k as int])
                },
            },
        decreases candidates.len() - i,
    {
        let c = &candidates[i];
        if is_claim_eligible(c, recovery, now) {
            match best {
                None => {
                    proof {
                        lemma_text_less_irreflexive(c.id@);
                    }
                    best = Some(i);
                },
                Some(k) => {
                    if is_claim_before(c, &candidates[k]) {
                        proof {
                            lemma_text_less_irreflexive(c.id@);
                            assert forall|j: int|
                                0 <= j < i + 1 && claim_eligible(
                                    #[trigger] candidates@[j],
                                    recovery,
                                    now,
                                ) implies !claim_before(candidates@[j], *c) by {
                                if j < i && claim_before(candidates@[j], *c) {
                                    lemma_claim_before_transitive(
                                        candidates@[j],
                                        *c,
                                        candidates@[k as int],
                                    );
                                }
                            }
                        }
                        best = Some(i);
                    }
                },
            }
        }
        i = i + 1;
    }
    proof {
        if let Some(k) = best {
            law_claims_take_only_claimable_tasks(candidates@[k as int], now);
        }
    }
    best
}

/// A work claim only takes a task that is open, unarchived, unblocked, with its
/// prerequisites, decisions and objective children ready and nobody holding it; such a
/// task, outside any workflow status, is one the status function shows as `ready`. A
/// recovery claim only takes a held task whose owner is no longer live.
pub proof fn law_claims_take_only_claimable_tasks(c: ClaimCandidate, now: i64)
    ensures
        claim_eligible(c, false, now) ==> {
            &&& !c.archived
            &&& c.task.lifecycle@ == "open"@
            &&& c.task.decisions_ready
            &&& c.task.objective_children_ready
            &&& c.task.dependencies_ready
            &&& !c.task.has_blocked_reason
            &&& !c.task.has_current_attempt
            &&& !c.task.is_workflow_activity
        },
        claim_eligible(c, false, now) && c.task.workflow_status is None ==> task_status(c.task, now)
            == "ready"@,
        claim_eligible(c, true, now) ==> {
            &&& !c.archived
            &&& c.task.lifecycle@ == "open"@
            &&& c.task.has_current_attempt
            &&& !live_owner(c.task, now)
            &&& task_status(c.task, now) == "recovery_required"@
        },
{
    reveal_strlit("revision_needed");
    reveal_strlit("review");
    reveal_strlit("integration");
    assert("revision_needed"@.len() != "review"@.len());
    assert("revision_needed"@.len() != "integration"@.len());
}

/// What a claim grants: the attempt's fencing generation, when its lease runs out, the
/// lease length and how often to renew.
pub struct ClaimGrant {
    pub generation: i64,
    pub expires_at: i64,
    pub lease_remaining_ms: i64,
    pub renew_after_seconds: i64,
}

/// A claim starts the next generation of the task, with a lease of `lease_seconds` from
/// `now`, renewed every third of the lease and at least once a minute.
pub fn claim_grant(task_generation: i64, now: i64, lease_seconds: i64) -> (g: ClaimGrant)
    requires
        task_generation < i64::MAX,
        i64::MIN <= lease_seconds * 1000 <= i64::MAX,
        i64::MIN <= now + lease_seconds * 1000 <= i64::MAX,
    ensures
        g.generation == task_generation + 1,
        g.expires_at == now + lease_seconds * 1000,
        g.lease_remaining_ms == lease_seconds * 1000,
        g.renew_after_seconds == (if trunc_div(lease_seconds as int, 3) < 60 {
            trunc_div(lease_seconds as int, 3)
        } else {
            60
        }),
{
    let lease_ms = lease_seconds * 1000;
    let third = lease_seconds / 3;
    ClaimGrant {
        generation: task_generation + 1,
        expires_at: now + lease_ms,
        lease_remaining_ms: lease_ms,
        renew_after_seconds: if third < 60 {
            third
        } else {
            60
        },
    }
}

/// What a replayed claim reports about the grant it made, read again at `now`.
pub struct ReplayedAuthority {
    pub valid: bool,
    pub lease_remaining_ms: i64,
    pub renew_after_seconds: i64,
}

/// A replayed claim still confers authority only while its attempt is active and unexpired,
/// its owner authorized, the attempt still the task's current one, and, for work claims, the
/// task's decisions and objective children ready.
pub open spec fn replay_valid(
    attempt_state: Seq<char>,
    attempt_mode: Seq<char>,
    expires_at: i64,
    now: i64,
    owner_authorized: bool,
    decisions_ready: bool,
    children_ready: bool,
    current_is_this: bool,
) -> bool {
    &&& attempt_state == "active"@
    &&& expires_at > now
    &&& owner_authorized
    &&& (attempt_mode == "recovery"@ || (decisions_ready && children_ready))
    &&& current_is_this
}

/// The authority a replayed claim reports: whether it still holds, the lease left (none
/// when it does not hold) and the renewal cadence for that lease.
pub fn replayed_claim_authority(
    attempt_state: &str,
    attempt_mode: &str,
    expires_at: i64,
    now: i64,
    owner_authorized: bool,
    decisions_ready: bool,
    children_ready: bool,
    current_is_this: bool,
) -> (r: ReplayedAuthority)
    requires
        expires_at - now <= i64::MAX,
    ensures
        r.valid == replay_valid(
            attempt_state@,
            attempt_mode@,
            expires_at,
            now,
            owner_authorized,
            decisions_ready,
            children_ready,
            current_is_this,
        ),
        r.lease_remaining_ms == (if r.valid {
            expires_at - now
        } else {
            0
        }),
        r.renew_after_seconds == (if trunc_div(r.lease_remaining_ms as int, 3000) < 60 {
            trunc_div(r.lease_remaining_ms as int, 3000)
        } else {
            60
        }),
{
    let valid = str_eq(attempt_state, "active") && expires_at > now && owner_authorized && (
    str_eq(attempt_mode, "recovery") || (decisions_ready && children_ready)) && current_is_this;
    let remaining: i64 = if valid {
        expires_at - now
    } else {
        0
    };
    let s = remaining / 3000;
    ReplayedAuthority {
        valid,
        lease_remaining_ms: remaining,
        renew_after_seconds: if s < 60 {
            s
        } else {
            60
        },
    }
}

/// A claim fences every earlier grant: once the task records the new generation, an
/// attempt that holds the task's earlier generation, or any before it, is refused whatever
/// it presents.
pub proof fn law_a_claim_fences_earlier_grants(
    task_generation: i64,
    g: ClaimGrant,
    earlier: AttemptState,
    actor: Actor,
    id: Seq<char>,
    presented: i64,
    at: i64,
    task: OwnedTask,
)
    requires
        g.generation == task_generation + 1,
        earlier.generation <= task_generation,
        task.generation == g.generation,
    ensures
        ownership_refusal(earlier, actor, id, presented, at, task) is Some,
{
}

} // verus!
