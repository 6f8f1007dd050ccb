//! Review requirements of a project's review mode, and whether a set of
//! approvals satisfies them; and who may ask for a revise.
use vstd::prelude::*;

use crate::error::{bad_request_view, conflict_view, human_gate_view, AppError, ErrorView};
use crate::text::{blank, byte_len, is_blank, str_eq, utf8_len};

verus! {

/// Agent revises allowed per subject in any 24 hours before the subject parks
/// in the human queue.
pub const REVISE_LIMIT: i64 = 3;

pub const DAY_MS: i64 = 86_400_000;

/// The views of a sequence of strings.
pub open spec fn texts(v: Seq<String>) -> Seq<Seq<char>> {
    v.map_values(|s: String| s@)
}

/// How many entries of `s` equal `x`.
pub open spec fn count_of(s: Seq<Seq<char>>, x: Seq<char>) -> nat
    decreases s.len(),
{
    if s.len() == 0 {
        0
    } else {
        count_of(s.drop_last(), x) + if s.last() == x {
            1nat
        } else {
            0nat
        }
    }
}

/// The review kinds a project review mode requires.
pub open spec fn review_kinds(mode: Seq<char>) -> Seq<Seq<char>> {
    if mode == "agent"@ {
        seq!["agent_review"@]
    } else if mode == "human"@ {
        seq!["human_review"@]
    } else if mode == "either"@ {
        seq!["either_review"@]
    } else if mode == "both"@ {
        seq!["agent_review"@, "human_review"@]
    } else {
        seq![]
    }
}

/// Review activity kinds a project review mode requires.
pub fn required_review_kinds(mode: &str) -> (kinds: Vec<String>)
    ensures
        texts(kinds@) == review_kinds(mode@),
{
    let mut kinds: Vec<String> = Vec::new();
    if str_eq(mode, "agent") {
        kinds.push("agent_review".to_owned());
    } else if str_eq(mode, "human") {
        kinds.push("human_review".to_owned());
    } else if str_eq(mode, "either") {
        kinds.push("either_review".to_owned());
    } else if str_eq(mode, "both") {
        kinds.push("agent_review".to_owned());
        kinds.push("human_review".to_owned());
    }
    assert(texts(kinds@) =~= review_kinds(mode@));
    kinds
}

/// Whether approvals satisfy required reviews. With `h`, `a` and `e` the
/// required human, agent and either reviews and `H` and `A` the human and
/// other approvers: every human review needs its own human; when a human review
/// is required the agent reviews need agents; and every approval counts once.
pub open spec fn satisfies(required: Seq<Seq<char>>, approvers: Seq<Seq<char>>) -> bool {
    let h = count_of(required, "human_review"@);
    let a = count_of(required, "agent_review"@);
    let e = count_of(required, "either_review"@);
    let humans = count_of(approvers, "human"@);
    let agents = approvers.len() - humans;
    &&& humans >= h
    &&& (h > 0 ==> agents >= a)
    &&& humans - h + agents >= a + e
}

pub proof fn lemma_count_bound(s: Seq<Seq<char>>, x: Seq<char>)
    ensures
        count_of(s, x) <= s.len(),
    decreases s.len(),
{
    if s.len() > 0 {
        lemma_count_bound(s.drop_last(), x);
    }
}

/// Counts the entries of `v` equal to `x`.
fn count_text(v: &[String], x: &str) -> (n: usize)
    ensures
        n == count_of(texts(v@), x@),
        n <= v.len(),
{
    let mut n: usize = 0;
    let mut i: usize = 0;
    while i < v.len()
        invariant
            i <= v.len(),
            n == count_of(texts(v@.subrange(0, i as int)), x@),
            n <= i,
        decreases v.len() - i,
    {
        assert(texts(v@.subrange(0, i + 1)).drop_last() =~= texts(v@.subrange(0, i as int)));
        if str_eq(v[i].as_str(), x) {
            n = n + 1;
        }
        i = i + 1;
    }
    assert(v@.subrange(0, v@.len() as int) =~= v@);
    n
}

/// Match required review kinds against approver classes ("human" or "agent").
/// Satisfaction order is human ≥ either ≥ agent: a human approval satisfies any
/// kind, an agent approval satisfies agent or either reviews, and each approval
/// counts once. When both human and agent reviews are required, the agent
/// review needs an agent.
pub fn reviews_satisfied(required: &[String], approvers: &[String]) -> (r: bool)
    ensures
        r == satisfies(texts(required@), texts(approvers@)),
{
    let human = count_text(required, "human_review");
    let agent = count_text(required, "agent_review");
    let either = count_text(required, "either_review");
    let mut humans = count_text(approvers, "human");
    let mut agents = approvers.len() - humans;
    if humans < human {
        return false;
    }
    humans = humans - human;
    let by_agents = if agent < agents {
        agent
    } else {
        agents
    };
    agents = agents - by_agents;
    let rest = agent - by_agents;
    if rest > 0 && (human > 0 || humans < rest) {
        return false;
    }
    humans = humans - rest;
    assert(humans + agents <= approvers.len());
    humans + agents >= either
}

/// A human approval satisfies any single required review.
pub proof fn law_human_approval_satisfies_any_kind(kind: Seq<char>)
    requires
        kind == "agent_review"@ || kind == "human_review"@ || kind == "either_review"@,
    ensures
        satisfies(seq![kind], seq!["human"@]),
{
    reveal_with_fuel(count_of, 2);
    assert(seq![kind].drop_last() =~= Seq::<Seq<char>>::empty());
    assert(seq!["human"@].drop_last() =~= Seq::<Seq<char>>::empty());
    proof_strlits_differ();
}

proof fn proof_strlits_differ()
    ensures
        "agent_review"@ != "human_review"@,
        "agent_review"@ != "either_review"@,
        "human_review"@ != "either_review"@,
        "human"@ != "agent"@,
{
    reveal_strlit("agent_review");
    reveal_strlit("human_review");
    reveal_strlit("either_review");
    reveal_strlit("human");
    reveal_strlit("agent");
    assert("agent_review"@[0] != "human_review"@[0]);
    assert("agent_review"@[0] != "either_review"@[0]);
    assert("human_review"@[0] != "either_review"@[0]);
    assert("human"@[0] != "agent"@[0]);
}

/// Without any human approval, a required human review is never satisfied.
pub proof fn law_agents_never_satisfy_human_review(
    required: Seq<Seq<char>>,
    approvers: Seq<Seq<char>>,
)
    requires
        required.contains("human_review"@),
        count_of(approvers, "human"@) == 0,
    ensures
        !satisfies(required, approvers),
{
    lemma_count_positive(required, "human_review"@);
}

pub proof fn lemma_count_positive(s: Seq<Seq<char>>, x: Seq<char>)
    requires
        s.contains(x),
    ensures
        count_of(s, x) > 0,
    decreases s.len(),
{
    if s.last() != x {
        let i = choose|i: int| 0 <= i < s.len() && s[i] == x;
        assert(s.drop_last()[i] == x);
        lemma_count_positive(s.drop_last(), x);
    }
}

/// Each approval counts once: satisfied requirements never outnumber approvals.
pub proof fn law_each_approval_counts_once(required: Seq<Seq<char>>, approvers: Seq<Seq<char>>)
    requires
        satisfies(required, approvers),
    ensures
        count_of(required, "human_review"@) + count_of(required, "agent_review"@) + count_of(
            required,
            "either_review"@,
        ) <= approvers.len(),
{
    lemma_count_bound(approvers, "human"@);
}

/// More approvals never undo satisfaction.
pub proof fn law_more_approvals_keep_satisfaction(
    required: Seq<Seq<char>>,
    approvers: Seq<Seq<char>>,
    extra: Seq<char>,
)
    requires
        satisfies(required, approvers),
    ensures
        satisfies(required, approvers.push(extra)),
{
    lemma_count_bound(approvers, "human"@);
    assert(approvers.push(extra).drop_last() =~= approvers);
}

/// How often `x` occurs in `s` is its count in the multiset of `s`.
pub proof fn lemma_count_is_multiplicity(s: Seq<Seq<char>>, x: Seq<char>)
    ensures
        count_of(s, x) == s.to_multiset().count(x),
        s.len() == s.to_multiset().len(),
    decreases s.len(),
{
    broadcast use vstd::seq_lib::to_multiset_build, vstd::seq_lib::to_multiset_len;

    s.to_multiset_ensures();
    if s.len() == 0 {
        assert(!s.contains(x));
    } else {
        lemma_count_is_multiplicity(s.drop_last(), x);
        assert(s =~= s.drop_last().push(s.last()));
    }
}

/// Satisfaction depends on neither the order of the required reviews nor that of the
/// approvals: lists with the same entries, in any order, give the same answer.
pub proof fn law_satisfaction_ignores_order(
    required: Seq<Seq<char>>,
    approvers: Seq<Seq<char>>,
    required2: Seq<Seq<char>>,
    approvers2: Seq<Seq<char>>,
)
    requires
        required.to_multiset() == required2.to_multiset(),
        approvers.to_multiset() == approvers2.to_multiset(),
    ensures
        satisfies(required, approvers) == satisfies(required2, approvers2),
{
    lemma_count_is_multiplicity(required, "human_review"@);
    lemma_count_is_multiplicity(required2, "human_review"@);
    lemma_count_is_multiplicity(required, "agent_review"@);
    lemma_count_is_multiplicity(required2, "agent_review"@);
    lemma_count_is_multiplicity(required, "either_review"@);
    lemma_count_is_multiplicity(required2, "either_review"@);
    lemma_count_is_multiplicity(approvers, "human"@);
    lemma_count_is_multiplicity(approvers2, "human"@);
}

/// One more approval of any class, anywhere in the list, never undoes satisfaction.
pub proof fn law_any_extra_approval_keeps_satisfaction(
    required: Seq<Seq<char>>,
    approvers: Seq<Seq<char>>,
    extra: Seq<char>,
    i: int,
)
    requires
        satisfies(required, approvers),
        0 <= i <= approvers.len(),
    ensures
        satisfies(required, approvers.insert(i, extra)),
{
    broadcast use vstd::seq_lib::to_multiset_build, vstd::seq_lib::to_multiset_insert;

    law_more_approvals_keep_satisfaction(required, approvers, extra);
    assert(approvers.insert(i, extra).to_multiset() =~= approvers.push(extra).to_multiset());
    law_satisfaction_ignores_order(required, approvers.push(extra), required, approvers.insert(i, extra));
}

/// When a human and an agent review are both required, the approvals must
/// include at least one human and at least one other approver.
pub proof fn law_both_needs_a_human_and_an_agent(approvers: Seq<Seq<char>>)
    ensures
        satisfies(seq!["agent_review"@, "human_review"@], approvers) <==> (count_of(
            approvers,
            "human"@,
        ) >= 1 && approvers.len() - count_of(approvers, "human"@) >= 1),
{
    reveal_with_fuel(count_of, 3);
    proof_strlits_differ();
    let r = seq!["agent_review"@, "human_review"@];
    assert(r.drop_last() =~= seq!["agent_review"@]);
    assert(r.drop_last().drop_last() =~= Seq::<Seq<char>>::empty());
    lemma_count_bound(approvers, "human"@);
}

proof fn lemma_modes_differ()
    ensures
        "both"@ != "agent"@,
        "both"@ != "human"@,
        "both"@ != "either"@,
        "either"@ != "agent"@,
        "either"@ != "human"@,
        "human"@ != "agent"@,
{
    reveal_strlit("both");
    reveal_strlit("agent");
    reveal_strlit("human");
    reveal_strlit("either");
    assert("both"@[0] == 'b');
    assert("agent"@[0] == 'a');
    assert("human"@[0] == 'h');
    assert("either"@[0] == 'e');
}

/// What each review mode asks of the approvals: `agent` and `either` are met by any one
/// approval, `human` needs a human approval, and `both` needs a human approval and another
/// approval besides. `both` queues an agent review and a human review; `agent`, `human`
/// and `either` queue one review each of their own kind; any other mode queues none.
pub proof fn law_review_modes_ask_for_their_approvers(approvers: Seq<Seq<char>>)
    ensures
        satisfies(review_kinds("agent"@), approvers) <==> approvers.len() >= 1,
        satisfies(review_kinds("either"@), approvers) <==> approvers.len() >= 1,
        satisfies(review_kinds("human"@), approvers) <==> count_of(approvers, "human"@) >= 1,
        satisfies(review_kinds("both"@), approvers) <==> (count_of(approvers, "human"@) >= 1
            && approvers.len() - count_of(approvers, "human"@) >= 1),
        review_kinds("both"@).len() == 2,
        review_kinds("both"@).contains("agent_review"@),
        review_kinds("both"@).contains("human_review"@),
        review_kinds("agent"@) == seq!["agent_review"@],
        review_kinds("human"@) == seq!["human_review"@],
        review_kinds("either"@) == seq!["either_review"@],
{
    lemma_modes_differ();
    proof_strlits_differ();
    reveal_with_fuel(count_of, 3);
    lemma_count_bound(approvers, "human"@);
    law_both_needs_a_human_and_an_agent(approvers);
    let b = review_kinds("both"@);
    assert(b[0] == "agent_review"@);
    assert(b[1] == "human_review"@);
    let a = seq!["agent_review"@];
    assert(a.drop_last() =~= Seq::<Seq<char>>::empty());
    let h = seq!["human_review"@];
    assert(h.drop_last() =~= Seq::<Seq<char>>::empty());
    let e = seq!["either_review"@];
    assert(e.drop_last() =~= Seq::<Seq<char>>::empty());
}

/// Nothing required is always satisfied.
pub proof fn law_nothing_required_is_satisfied(approvers: Seq<Seq<char>>)
    ensures
        satisfies(seq![], approvers),
{
    lemma_count_bound(approvers, "human"@);
}

/// Evidence a revise reason needs: 1 to 16384 bytes that are not all blank.
pub open spec fn evidence_ok(evidence: Option<Seq<char>>) -> bool {
    evidence matches Some(v) && !is_blank(v) && utf8_len(v) <= 16384
}

pub fn require_evidence(evidence: Option<&str>) -> (r: Result<(), AppError>)
    ensures
        r is Ok <==> evidence_ok(
            match evidence {
                Some(v) => Some(v@),
                None => None,
            },
        ),
        r matches Err(e) ==> e@ == bad_request_view(
            "This reason_code needs 1–16384 bytes of evidence."@,
        ),
{
    match evidence {
        Some(value) => {
            if blank(value) || byte_len(value) > 16384 {
                return Err(AppError::bad_request("This reason_code needs 1–16384 bytes of evidence."));
            }
            Ok(())
        },
        None => Err(AppError::bad_request("This reason_code needs 1–16384 bytes of evidence.")),
    }
}


/// The evidence text of an optional string.
pub open spec fn opt_text(o: Option<&str>) -> Option<Seq<char>> {
    match o {
        Some(v) => Some(v@),
        None => None,
    }
}

/// What the records say about an agent revise, as each reason code's check needs it.
#[derive(Clone, Copy, Debug)]
pub struct ReviseFacts {
    /// The caller's session owns the submission's live integration attempt.
    pub holds_integration: bool,
    /// The submission is a code submission without a durable candidate ref.
    pub candidate_missing: bool,
    /// The caller contributed to the task.
    pub is_contributor: bool,
    /// The task's judged fields differ from the digest the submission pinned.
    pub digest_changed: bool,
    /// The caller created the submission.
    pub is_author: bool,
}

/// The reason record attached to an authorized revise.
#[derive(Debug)]
pub struct ReviseReason {
    pub reason_code: String,
    pub evidence: Option<String>,
}

pub open spec fn revise_not_permitted_view() -> ErrorView {
    conflict_view(
        "revise_not_permitted"@,
        "This caller or the recorded state does not permit this revise reason."@,
    )
}

/// Whether the facts permit a known reason code; `None` for an unknown code.
pub open spec fn reason_permitted(code: Seq<char>, f: ReviseFacts) -> Option<bool> {
    if code == "conflict"@ || code == "check_failed"@ {
        Some(f.holds_integration)
    } else if code == "candidate_missing"@ {
        Some(f.candidate_missing)
    } else if code == "requirements_changed"@ {
        Some(!f.is_contributor && f.digest_changed)
    } else if code == "author_withdraw"@ {
        Some(f.is_author)
    } else {
        None
    }
}

/// The refusal of an agent revise, if any: a reason code is required; the project must
/// delegate recovery to agents; at most three agent revises per subject in a day; a
/// conflict or failed check needs evidence and the caller's live integration; a missing
/// candidate must really be missing; changed requirements need a changed digest and a
/// caller who did not contribute; a withdrawal comes from the author.
pub open spec fn revise_refusal(
    code: Option<Seq<char>>,
    recovery_mode: Seq<char>,
    recent_agent_revises: int,
    evidence: Option<Seq<char>>,
    f: ReviseFacts,
) -> Option<ErrorView> {
    match code {
        None => Some(
            bad_request_view(
                "Agents must give reason_code: conflict, check_failed, candidate_missing, requirements_changed or author_withdraw."@,
            ),
        ),
        Some(c) => if recovery_mode != "agent"@ {
            Some(
                human_gate_view(
                    "human_reopen_required"@,
                    "This project reserves reopening submissions to a human (recovery_mode is manual)."@,
                ),
            )
        } else if recent_agent_revises >= REVISE_LIMIT {
            Some(
                human_gate_view(
                    "revise_limit_reached"@,
                    "Agents revised this"@ + " task three times in 24 hours; a human must look at it."@,
                ),
            )
        } else if (c == "conflict"@ || c == "check_failed"@) && !evidence_ok(evidence) {
            Some(bad_request_view("This reason_code needs 1–16384 bytes of evidence."@))
        } else {
            match reason_permitted(c, f) {
                None => Some(bad_request_view("Unknown reason_code."@)),
                Some(true) => None,
                Some(false) => Some(revise_not_permitted_view()),
            }
        },
    }
}

/// Authorize an agent revise (an agent-called reopen) and give the reason record to
/// attach to the result.
pub fn check_revise(
    code: Option<&str>,
    recovery_mode: &str,
    recent_agent_revises: i64,
    evidence: Option<&str>,
    facts: ReviseFacts,
) -> (r: Result<ReviseReason, AppError>)
    ensures
        match revise_refusal(
            opt_text(code),
            recovery_mode@,
            recent_agent_revises as int,
            opt_text(evidence),
            facts,
        ) {
            Some(e) => r matches Err(x) && x@ == e,
            None => r matches Ok(reason) && Some(reason.reason_code@) == opt_text(code)
                && opt_text(evidence) == match reason.evidence {
                Some(v) => Some(v@),
                None => None,
            },
        },
{
    let c = match code {
        Some(c) => c,
        None => {
            return Err(
                AppError::bad_request(
                    "Agents must give reason_code: conflict, check_failed, candidate_missing, requirements_changed or author_withdraw.",
                ),
            )
        },
    };
    if !str_eq(recovery_mode, "agent") {
        return Err(
            AppError::human_gate(
                "human_reopen_required",
                "This project reserves reopening submissions to a human (recovery_mode is manual).",
            ),
        );
    }
    if recent_agent_revises >= REVISE_LIMIT {
        return Err(
            AppError::human_gate(
                "revise_limit_reached",
                crate::text::concat(
                    "Agents revised this",
                    " task three times in 24 hours; a human must look at it.",
                ).as_str(),
            ),
        );
    }
    let allowed = if str_eq(c, "conflict") || str_eq(c, "check_failed") {
        require_evidence(evidence)?;
        facts.holds_integration
    } else if str_eq(c, "candidate_missing") {
        facts.candidate_missing
    } else if str_eq(c, "requirements_changed") {
        !facts.is_contributor && facts.digest_changed
    } else if str_eq(c, "author_withdraw") {
        facts.is_author
    } else {
        return Err(AppError::bad_request("Unknown reason_code."));
    };
    if !allowed {
        return Err(
            AppError::conflict(
                "revise_not_permitted",
                "This caller or the recorded state does not permit this revise reason.",
            ),
        );
    }
    let evidence_text = match evidence {
        Some(v) => Some(v.to_owned()),
        None => None,
    };
    Ok(ReviseReason { reason_code: c.to_owned(), evidence: evidence_text })
}

/// An authorized agent revise always had a delegating project, a reason the records
/// bear out, and fewer than three agent revises of the subject in the last day.
pub proof fn law_authorized_revises_are_delegated_and_bounded(
    code: Option<Seq<char>>,
    recovery_mode: Seq<char>,
    recent_agent_revises: int,
    evidence: Option<Seq<char>>,
    f: ReviseFacts,
)
    requires
        revise_refusal(code, recovery_mode, recent_agent_revises, evidence, f) is None,
    ensures
        recovery_mode == "agent"@,
        recent_agent_revises < REVISE_LIMIT,
        code matches Some(c) && reason_permitted(c, f) == Some(true),
        code matches Some(c) && (c == "conflict"@ || c == "check_failed"@) ==> evidence_ok(evidence),
{
}

/// The reviews an approval set is judged against: the current review mode's kinds
/// while the subject is in review, and otherwise the review activities recorded when
/// it was approved.
pub open spec fn approval_requirements(
    in_review: bool,
    review_mode: Seq<char>,
    recorded: Seq<Seq<char>>,
) -> Seq<Seq<char>> {
    if in_review {
        review_kinds(review_mode)
    } else {
        recorded
    }
}

/// True when the submission's approvals satisfy its required reviews. A subject still
/// in review is judged against the current review mode; one past review keeps the
/// review set it was approved under (`recorded`, its live non-integration review
/// activities).
pub fn approvals_satisfied(
    in_review: bool,
    review_mode: &str,
    recorded: &[String],
    approvers: &[String],
) -> (r: bool)
    ensures
        r == satisfies(approval_requirements(in_review, review_mode@, texts(recorded@)), texts(approvers@)),
{
    if in_review {
        let required = required_review_kinds(review_mode);
        reviews_satisfied(required.as_slice(), approvers)
    } else {
        reviews_satisfied(recorded, approvers)
    }
}

/// The required kinds with no live activity, in order.
pub open spec fn missing_kinds(required: Seq<Seq<char>>, live: Seq<Seq<char>>) -> Seq<Seq<char>>
    decreases required.len(),
{
    if required.len() == 0 {
        seq![]
    } else {
        let rest = missing_kinds(required.drop_last(), live);
        if count_of(live, required.last()) == 0 {
            rest.push(required.last())
        } else {
            rest
        }
    }
}

/// What reconciling one subject in review does.
#[derive(Debug)]
pub enum ReviewStep {
    /// Its approvals satisfy the current mode and no review is active: advance it.
    Advance,
    /// Its approvals satisfy the current mode, but an active review decides later.
    AwaitActive,
    /// Queue a review activity of each of these kinds.
    AddReviews(Vec<String>),
}

pub open spec fn review_step_spec(
    required: Seq<Seq<char>>,
    approvers: Seq<Seq<char>>,
    active_reviews: int,
    live: Seq<Seq<char>>,
) -> (bool, bool, Seq<Seq<char>>) {
    if satisfies(required, approvers) {
        (true, active_reviews == 0, seq![])
    } else {
        (false, false, missing_kinds(required, live))
    }
}

/// Bring one subject in review up to its project's current review mode: a subject
/// whose approvals satisfy `required` advances unless a review is still active;
/// otherwise a review activity is queued for each required kind with no live activity.
pub fn reconcile_step(
    required: &[String],
    approvers: &[String],
    active_reviews: u64,
    live: &[String],
) -> (r: ReviewStep)
    ensures
        ({
            let (satisfied, advance, add) = review_step_spec(
                texts(required@),
                texts(approvers@),
                active_reviews as int,
                texts(live@),
            );
            match r {
                ReviewStep::Advance => satisfied && advance,
                ReviewStep::AwaitActive => satisfied && !advance,
                ReviewStep::AddReviews(kinds) => !satisfied && texts(kinds@) == add,
            }
        }),
{
    if reviews_satisfied(required, approvers) {
        if active_reviews == 0 {
            ReviewStep::Advance
        } else {
            ReviewStep::AwaitActive
        }
    } else {
        let mut kinds: Vec<String> = Vec::new();
        let mut i: usize = 0;
        while i < required.len()
            invariant
                i <= required.len(),
                texts(kinds@) == missing_kinds(texts(required@.subrange(0, i as int)), texts(live@)),
            decreases required.len() - i,
        {
            proof {
                assert(texts(required@.subrange(0, i + 1)).drop_last() =~= texts(
                    required@.subrange(0, i as int),
                ));
            }
            let n = count_text(live, required[i].as_str());
            if n == 0 {
                kinds.push(required[i].clone());
                proof {
                    assert(texts(kinds@) =~= missing_kinds(
                        texts(required@.subrange(0, i as int)),
                        texts(live@),
                    ).push(required@[i as int]@));
                }
            }
            i = i + 1;
        }
        proof {
            assert(required@.subrange(0, required@.len() as int) =~= required@);
        }
        ReviewStep::AddReviews(kinds)
    }
}

/// A queued review activity is canceled when the current mode no longer requires its
/// kind; integration activities are never canceled here.
pub fn review_unrequired(kind: &str, required: &[String]) -> (r: bool)
    ensures
        r == (kind@ != "integration"@ && count_of(texts(required@), kind@) == 0),
{
    !str_eq(kind, "integration") && count_text(required, kind) == 0
}

pub proof fn lemma_count_add(a: Seq<Seq<char>>, b: Seq<Seq<char>>, x: Seq<char>)
    ensures
        count_of(a + b, x) == count_of(a, x) + count_of(b, x),
    decreases b.len(),
{
    if b.len() == 0 {
        assert(a + b =~= a);
    } else {
        assert((a + b).drop_last() =~= a + b.drop_last());
        lemma_count_add(a, b.drop_last(), x);
    }
}

proof fn lemma_missing_covers(required: Seq<Seq<char>>, live: Seq<Seq<char>>, i: int)
    requires
        0 <= i < required.len(),
    ensures
        count_of(live, required[i]) > 0 || missing_kinds(required, live).contains(required[i]),
    decreases required.len(),
{
    let m = missing_kinds(required, live);
    if i == required.len() - 1 {
        if count_of(live, required[i]) == 0 {
            assert(m[m.len() - 1] == required[i]);
        }
    } else {
        assert(required.drop_last()[i] == required[i]);
        lemma_missing_covers(required.drop_last(), live, i);
        let rest = missing_kinds(required.drop_last(), live);
        if rest.contains(required[i]) {
            let j = choose|j: int| 0 <= j < rest.len() && rest[j] == required[i];
            assert(m[j] == required[i]);
        }
    }
}

/// Reconciling never strands a subject: when its approvals do not satisfy the mode,
/// every required kind has a live review activity or gets one queued.
pub proof fn law_reconcile_leaves_no_required_review_unqueued(
    required: Seq<Seq<char>>,
    approvers: Seq<Seq<char>>,
    active_reviews: int,
    live: Seq<Seq<char>>,
    i: int,
)
    requires
        !satisfies(required, approvers),
        0 <= i < required.len(),
    ensures
        ({
            let (_, _, add) = review_step_spec(required, approvers, active_reviews, live);
            count_of(live, required[i]) > 0 || add.contains(required[i])
        }),
{
    lemma_missing_covers(required, live, i);
}

proof fn lemma_nothing_missing(required: Seq<Seq<char>>, live: Seq<Seq<char>>)
    requires
        forall|i: int| 0 <= i < required.len() ==> count_of(live, #[trigger] required[i]) > 0,
    ensures
        missing_kinds(required, live) == Seq::<Seq<char>>::empty(),
    decreases required.len(),
{
    if required.len() > 0 {
        assert forall|i: int| 0 <= i < required.drop_last().len() implies count_of(
            live,
            #[trigger] required.drop_last()[i],
        ) > 0 by {
            assert(required.drop_last()[i] == required[i]);
        }
        lemma_nothing_missing(required.drop_last(), live);
        assert(count_of(live, required[required.len() - 1]) > 0);
    }
}

/// Reconciling is idempotent: once the queued reviews are live, a second pass queues
/// nothing more.
pub proof fn law_reconcile_is_idempotent(required: Seq<Seq<char>>, live: Seq<Seq<char>>)
    ensures
        missing_kinds(required, live + missing_kinds(required, live)) == Seq::<Seq<char>>::empty(),
{
    let m = missing_kinds(required, live);
    assert forall|i: int| 0 <= i < required.len() implies count_of(
        live + m,
        #[trigger] required[i],
    ) > 0 by {
        lemma_missing_covers(required, live, i);
        lemma_count_add(live, m, required[i]);
        if !(count_of(live, required[i]) > 0) {
            lemma_count_positive(m, required[i]);
        }
    }
    lemma_nothing_missing(required, live + m);
}

} // verus!
