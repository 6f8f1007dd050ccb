//! Scoped decisions after they are asked: answering, reopening, whether a decision's scope
//! is still current, and whether it still blocks the work it scopes.
use vstd::prelude::*;

use crate::auth::Actor;
use crate::error::{bad_request_view, conflict_view, forbidden_view, AppError, ErrorView};
use crate::knowledge::{decision_tasks_error, validate_decision_tasks, DecisionTaskInput};
use crate::text::str_eq;
use crate::validation::{bounded_message, bounded_ok, check_bounded, strings};

verus! {

/// An answer to the current generation of a decision.
pub struct DecisionAnswerInput {
    pub disposition: String,
    pub answer: String,
    pub rationale: String,
    pub conditions_confirmed: bool,
    pub expected_generation: i64,
}

pub open spec fn answer_input_error(input: DecisionAnswerInput) -> Option<ErrorView> {
    let d = input.disposition@;
    if !bounded_ok(input.answer@, 2048, true) {
        Some(bad_request_view(bounded_message("answer"@, 2048, true)))
    } else if !bounded_ok(input.rationale@, 8192, true) {
        Some(bad_request_view(bounded_message("rationale"@, 8192, true)))
    } else if !(d == "allow"@ || d == "deny"@ || d == "defer"@) {
        Some(bad_request_view("disposition must be allow, deny, or defer."@))
    } else if d == "allow"@ && !input.conditions_confirmed {
        Some(
            bad_request_view(
                "An allow answer must explicitly confirm the recorded conditions and environment."@,
            ),
        )
    } else {
        None
    }
}

/// A bounded answer and rationale, a disposition of allow, deny or defer, and an allow that
/// confirms the recorded conditions.
pub fn validate_answer_input(input: &DecisionAnswerInput) -> (r: Result<(), AppError>)
    ensures
        match answer_input_error(*input) {
            None => r is Ok,
            Some(v) => (r matches Err(e) && e@ == v),
        },
{
    check_bounded(input.answer.as_str(), "answer", 2048, true)?;
    check_bounded(input.rationale.as_str(), "rationale", 8192, true)?;
    let d = input.disposition.as_str();
    let allow = str_eq(d, "allow");
    if !(allow || str_eq(d, "deny") || str_eq(d, "defer")) {
        return Err(AppError::bad_request("disposition must be allow, deny, or defer."));
    }
    if allow && !input.conditions_confirmed {
        return Err(
            AppError::bad_request(
                "An allow answer must explicitly confirm the recorded conditions and environment.",
            ),
        );
    }
    Ok(())
}

/// The answer names the current generation, comes from the actor type the decision
/// requires, and an agent answers through a session.
pub open spec fn answerer_error(
    generation: i64,
    expected_generation: i64,
    required_actor: Seq<char>,
    actor: Actor,
) -> Option<ErrorView> {
    if generation != expected_generation {
        Some(
            conflict_view(
                "generation_conflict"@,
                "Read the current decision generation before answering."@,
            ),
        )
    } else if (required_actor == "human"@ && actor.kind@ != "human"@) || (required_actor
        == "agent"@ && actor.kind@ != "agent"@) {
        Some(forbidden_view("This decision requires the configured actor type."@))
    } else if actor.kind@ == "agent"@ && actor.session_id is None {
        Some(forbidden_view("Connect an agent session before answering a decision."@))
    } else {
        None
    }
}

pub fn check_answerer(generation: i64, expected_generation: i64, required_actor: &str, actor: &Actor) -> (r:
    Result<(), AppError>)
    ensures
        match answerer_error(generation, expected_generation, required_actor@, *actor) {
            None => r is Ok,
            Some(v) => (r matches Err(e) && e@ == v),
        },
{
    if generation != expected_generation {
        return Err(
            AppError::conflict(
                "generation_conflict",
                "Read the current decision generation before answering.",
            ),
        );
    }
    let kind = actor.kind.as_str();
    let human = str_eq(kind, "human");
    let agent = str_eq(kind, "agent");
    if (str_eq(required_actor, "human") && !human) || (str_eq(required_actor, "agent") && !agent) {
        return Err(AppError::forbidden("This decision requires the configured actor type."));
    }
    if agent && actor.session_id.is_none() {
        return Err(AppError::forbidden("Connect an agent session before answering a decision."));
    }
    Ok(())
}

/// A decision's scope is current while it has not expired, the project's policy revision is
/// the one it was asked under, and no affected task changed revision.
pub open spec fn scope_stale_error(
    expires_at: Option<i64>,
    now: i64,
    project_policy_revision: i64,
    decision_policy_revision: i64,
    changed_tasks: i64,
) -> Option<ErrorView> {
    if (expires_at matches Some(x) && x <= now) {
        Some(
            conflict_view(
                "decision_expired"@,
                "Reopen the expired decision against current task and policy revisions."@,
            ),
        )
    } else if project_policy_revision != decision_policy_revision {
        Some(
            conflict_view(
                "decision_scope_stale"@,
                "Project policy changed; reopen the decision with the current scope."@,
            ),
        )
    } else if changed_tasks > 0 {
        Some(
            conflict_view(
                "decision_scope_stale"@,
                "An affected task changed; reopen the decision with exact current revisions."@,
            ),
        )
    } else {
        None
    }
}

pub fn check_scope_current(
    expires_at: Option<i64>,
    now: i64,
    project_policy_revision: i64,
    decision_policy_revision: i64,
    changed_tasks: i64,
) -> (r: Result<(), AppError>)
    ensures
        match scope_stale_error(
            expires_at,
            now,
            project_policy_revision,
            decision_policy_revision,
            changed_tasks,
        ) {
            None => r is Ok,
            Some(v) => (r matches Err(e) && e@ == v),
        },
{
    let expired = match expires_at {
        Some(x) => x <= now,
        None => false,
    };
    if expired {
        return Err(
            AppError::conflict(
                "decision_expired",
                "Reopen the expired decision against current task and policy revisions.",
            ),
        );
    }
    if project_policy_revision != decision_policy_revision {
        return Err(
            AppError::conflict(
                "decision_scope_stale",
                "Project policy changed; reopen the decision with the current scope.",
            ),
        );
    }
    if changed_tasks > 0 {
        return Err(
            AppError::conflict(
                "decision_scope_stale",
                "An affected task changed; reopen the decision with exact current revisions.",
            ),
        );
    }
    Ok(())
}

/// The answer must be exactly one of the decision's options.
pub fn check_answer_option(options: &Vec<String>, answer: &str) -> (r: Result<(), AppError>)
    ensures
        r is Ok <==> strings(options@).contains(answer@),
        r matches Err(e) ==> e@ == bad_request_view(
            "The answer must exactly match one of the decision options."@,
        ),
{
    let ghost s = strings(options@);
    let mut i: usize = 0;
    while i < options.len()
        invariant
            i <= options.len(),
            s == strings(options@),
            forall|k: int| 0 <= k < i ==> s[k] != answer@,
        decreases options.len() - i,
    {
        if str_eq(options[i].as_str(), answer) {
            assert(s[i as int] == answer@);
            return Ok(());
        }
        i = i + 1;
    }
    Err(AppError::bad_request("The answer must exactly match one of the decision options."))
}

/// A new generation for a decision.
pub struct DecisionReopenInput {
    pub rationale: String,
    pub environment: String,
    pub conditions: String,
    pub affected_tasks: Vec<DecisionTaskInput>,
    pub policy_revision: i64,
    pub expires_at: Option<i64>,
    pub expected_generation: i64,
}

pub open spec fn reopen_input_error(input: DecisionReopenInput) -> Option<ErrorView> {
    if !bounded_ok(input.rationale@, 8192, true) {
        Some(bad_request_view(bounded_message("rationale"@, 8192, true)))
    } else if !bounded_ok(input.environment@, 2048, false) {
        Some(bad_request_view(bounded_message("environment"@, 2048, false)))
    } else if !bounded_ok(input.conditions@, 4096, false) {
        Some(bad_request_view(bounded_message("conditions"@, 4096, false)))
    } else if decision_tasks_error(input.affected_tasks@) is Some {
        decision_tasks_error(input.affected_tasks@)
    } else if input.policy_revision <= 0 {
        Some(bad_request_view("Use a positive current policy_revision."@))
    } else {
        None
    }
}

pub fn validate_reopen_input(input: &DecisionReopenInput) -> (r: Result<(), AppError>)
    ensures
        match reopen_input_error(*input) {
            None => r is Ok,
            Some(v) => (r matches Err(e) && e@ == v),
        },
{
    check_bounded(input.rationale.as_str(), "rationale", 8192, true)?;
    check_bounded(input.environment.as_str(), "environment", 2048, false)?;
    check_bounded(input.conditions.as_str(), "conditions", 4096, false)?;
    validate_decision_tasks(&input.affected_tasks)?;
    if input.policy_revision <= 0 {
        return Err(AppError::bad_request("Use a positive current policy_revision."));
    }
    Ok(())
}

/// A new decision expires in the future, if at all.
pub fn check_expiry(expires_at: Option<i64>, now: i64) -> (r: Result<(), AppError>)
    ensures
        r is Ok <==> !(expires_at matches Some(x) && x <= now),
        r matches Err(e) ==> e@ == bad_request_view("expires_at must be in the future."@),
{
    match expires_at {
        Some(x) => if x <= now {
            Err(AppError::bad_request("expires_at must be in the future."))
        } else {
            Ok(())
        },
        None => Ok(()),
    }
}

/// The first refusal among the first `n` affected tasks: one that is not in the project
/// (`current[i]` is `None`), or one whose current revision differs from the one named.
pub open spec fn scope_tasks_error(
    tasks: Seq<DecisionTaskInput>,
    current: Seq<Option<i64>>,
    n: nat,
) -> Option<ErrorView>
    decreases n,
{
    if n == 0 {
        None
    } else {
        let prev = scope_tasks_error(tasks, current, (n - 1) as nat);
        if prev is Some {
            prev
        } else {
            match current[n - 1] {
                None => Some(bad_request_view("Every affected task must belong to the project."@)),
                Some(rev) => if rev != tasks[n - 1].task_revision {
                    Some(
                        conflict_view(
                            "revision_conflict"@,
                            "Read each affected task's current revision before recording this decision scope."@,
                        ),
                    )
                } else {
                    None
                },
            }
        }
    }
}

/// A decision scope is recorded against the current policy revision and each affected
/// task's current revision, and never once integration publication authority is held
/// for one of those tasks.
pub open spec fn decision_scope_error(
    current_policy_revision: i64,
    policy_revision: i64,
    tasks: Seq<DecisionTaskInput>,
    current: Seq<Option<i64>>,
    held: i64,
) -> Option<ErrorView> {
    if current_policy_revision != policy_revision {
        Some(
            conflict_view(
                "revision_conflict"@,
                "Read the current project policy before recording this decision scope."@,
            ),
        )
    } else if scope_tasks_error(tasks, current, tasks.len()) is Some {
        scope_tasks_error(tasks, current, tasks.len())
    } else if held > 0 {
        Some(
            conflict_view(
                "policy_hold_conflict"@,
                "A decision cannot be opened or rebound after integration publication authority is held. Finish or reconcile that integration first."@,
            ),
        )
    } else {
        None
    }
}

proof fn lemma_scope_error_stable(
    tasks: Seq<DecisionTaskInput>,
    current: Seq<Option<i64>>,
    a: nat,
    b: nat,
)
    requires
        a <= b,
        scope_tasks_error(tasks, current, a) is Some,
    ensures
        scope_tasks_error(tasks, current, b) == scope_tasks_error(tasks, current, a),
    decreases b - a,
{
    if a < b {
        lemma_scope_error_stable(tasks, current, a, (b - 1) as nat);
    }
}

/// Check a decision scope: `current[i]` is the current revision of `tasks[i]` in the
/// project, if it belongs there, and `held` counts the held integration publication
/// authorities linked to those tasks.
pub fn check_decision_scope(
    current_policy_revision: i64,
    policy_revision: i64,
    tasks: &Vec<DecisionTaskInput>,
    current: &Vec<Option<i64>>,
    held: i64,
) -> (r: Result<(), AppError>)
    requires
        current.len() == tasks.len(),
    ensures
        match decision_scope_error(current_policy_revision, policy_revision, tasks@, current@, held) {
            None => r is Ok,
            Some(v) => (r matches Err(e) && e@ == v),
        },
{
    if current_policy_revision != policy_revision {
        return Err(
            AppError::conflict(
                "revision_conflict",
                "Read the current project policy before recording this decision scope.",
            ),
        );
    }
    let mut i: usize = 0;
    while i < tasks.len()
        invariant
            i <= tasks.len(),
            current.len() == tasks.len(),
            current_policy_revision == policy_revision,
            scope_tasks_error(tasks@, current@, i as nat) is None,
        decreases tasks.len() - i,
    {
        match current[i] {
            None => {
                proof {
                    lemma_scope_error_stable(tasks@, current@, (i + 1) as nat, tasks.len() as nat);
                }
                return Err(AppError::bad_request("Every affected task must belong to the project."));
            },
            Some(rev) => {
                if rev != tasks[i].task_revision {
                    proof {
                        lemma_scope_error_stable(
                            tasks@,
                            current@,
                            (i + 1) as nat,
                            tasks.len() as nat,
                        );
                    }
                    return Err(
                        AppError::conflict(
                            "revision_conflict",
                            "Read each affected task's current revision before recording this decision scope.",
                        ),
                    );
                }
            },
        }
        i = i + 1;
    }
    if held > 0 {
        return Err(
            AppError::conflict(
                "policy_hold_conflict",
                "A decision cannot be opened or rebound after integration publication authority is held. Finish or reconcile that integration first.",
            ),
        );
    }
    Ok(())
}

/// A reopened decision expires in the future, if at all, and names its current generation.
pub open spec fn reopen_error(expires_at: Option<i64>, now: i64, generation: i64, expected_generation: i64) -> Option<
    ErrorView,
> {
    if (expires_at matches Some(x) && x <= now) {
        Some(bad_request_view("expires_at must be in the future."@))
    } else if generation != expected_generation {
        Some(
            conflict_view(
                "generation_conflict"@,
                "Read the current decision generation before reopening."@,
            ),
        )
    } else {
        None
    }
}

pub fn check_reopen(expires_at: Option<i64>, now: i64, generation: i64, expected_generation: i64) -> (r:
    Result<(), AppError>)
    ensures
        match reopen_error(expires_at, now, generation, expected_generation) {
            None => r is Ok,
            Some(v) => (r matches Err(e) && e@ == v),
        },
{
    let past = match expires_at {
        Some(x) => x <= now,
        None => false,
    };
    if past {
        return Err(AppError::bad_request("expires_at must be in the future."));
    }
    if generation != expected_generation {
        return Err(
            AppError::conflict(
                "generation_conflict",
                "Read the current decision generation before reopening.",
            ),
        );
    }
    Ok(())
}

/// The current generation of a decision as it stands.
pub struct DecisionCycle {
    pub policy_revision: i64,
    pub project_policy_revision: i64,
    /// Affected tasks whose revision moved since the decision was asked.
    pub changed_tasks: i64,
    /// The recorded answer's disposition and whether it confirmed the conditions.
    pub answer: Option<(String, bool)>,
    pub expires_at: Option<i64>,
}

/// A decision stops blocking only while an `allow` answer that confirmed its conditions
/// stands for its complete, unchanged task and policy scope and it has not expired.
pub open spec fn decision_blocks(c: DecisionCycle, now: i64) -> bool {
    !(c.policy_revision == c.project_policy_revision && c.changed_tasks <= 0 && (c.answer matches Some(
        a,
    ) && a.0@ == "allow"@ && a.1) && !(c.expires_at matches Some(x) && x <= now))
}

pub fn blocks(c: &DecisionCycle, now: i64) -> (r: bool)
    ensures
        r == decision_blocks(*c, now),
{
    let allowed = match &c.answer {
        Some(a) => str_eq(a.0.as_str(), "allow") && a.1,
        None => false,
    };
    let expired = match c.expires_at {
        Some(x) => x <= now,
        None => false,
    };
    !(c.policy_revision == c.project_policy_revision && c.changed_tasks <= 0 && allowed && !expired)
}

/// A decision that no longer blocks is one an answer could still be accepted against: its
/// scope passes the currency check.
pub proof fn law_unblocking_decisions_have_current_scope(c: DecisionCycle, now: i64)
    requires
        !decision_blocks(c, now),
    ensures
        scope_stale_error(c.expires_at, now, c.project_policy_revision, c.policy_revision, c.changed_tasks)
            is None,
{
}

/// The status a decision shows: stale once its policy or an affected task moved, then
/// expired, then by its answer (allowed only for a confirmed `allow`, denied for `deny`,
/// deferred otherwise), and pending without one.
pub open spec fn decision_status_of(c: DecisionCycle, now: i64) -> Seq<char> {
    if c.policy_revision != c.project_policy_revision || c.changed_tasks > 0 {
        "stale"@
    } else if (c.expires_at matches Some(x) && x <= now) {
        "expired"@
    } else {
        match c.answer {
            Some(a) => if a.0@ == "allow"@ && a.1 {
                "allowed"@
            } else if a.0@ == "deny"@ {
                "denied"@
            } else {
                "deferred"@
            },
            None => "pending"@,
        }
    }
}

pub fn decision_status(c: &DecisionCycle, now: i64) -> (r: &'static str)
    ensures
        r@ == decision_status_of(*c, now),
{
    if c.policy_revision != c.project_policy_revision || c.changed_tasks > 0 {
        return "stale";
    }
    let expired = match c.expires_at {
        Some(x) => x <= now,
        None => false,
    };
    if expired {
        return "expired";
    }
    match &c.answer {
        Some(a) => if str_eq(a.0.as_str(), "allow") && a.1 {
            "allowed"
        } else if str_eq(a.0.as_str(), "deny") {
            "denied"
        } else {
            "deferred"
        },
        None => "pending",
    }
}

/// A decision allows work exactly when it has stopped blocking: a denial, a deferral, an
/// unconfirmed allow, a changed scope or an expiry never authorizes work.
pub proof fn law_allowed_exactly_when_unblocked(c: DecisionCycle, now: i64)
    ensures
        (decision_status_of(c, now) == "allowed"@) <==> !decision_blocks(c, now),
{
    reveal_strlit("allowed");
    reveal_strlit("stale");
    reveal_strlit("expired");
    reveal_strlit("denied");
    reveal_strlit("deferred");
    reveal_strlit("pending");
    assert("allowed"@.len() == 7 && "stale"@.len() == 5 && "expired"@.len() == 7);
    assert("denied"@.len() == 6 && "deferred"@.len() == 8 && "pending"@.len() == 7);
    assert("allowed"@[0] != "expired"@[0] && "allowed"@[0] != "pending"@[0]);
}

pub open spec fn decision_status_filter_ok(v: Seq<char>) -> bool {
    v == "pending"@ || v == "allowed"@ || v == "denied"@ || v == "deferred"@ || v == "expired"@ || v
        == "stale"@
}

/// A decision listing: 50 by default, 1 to 200; a status filter among the six statuses; a
/// cursor `TIME:ID` whose time is an integer. Gives the limit and the cursor's parts.
pub open spec fn decision_page_result(limit: Option<i64>, status: Option<Seq<char>>, cursor: Option<Seq<char>>) -> Result<
    (i64, Option<(int, Seq<char>)>),
    ErrorView,
> {
    let n = match limit {
        Some(n) => n,
        None => 50,
    };
    if !(1 <= n <= 200) {
        Err(bad_request_view("limit must be between 1 and 200."@))
    } else if (status matches Some(v) && !decision_status_filter_ok(v)) {
        Err(bad_request_view("Invalid decision status filter."@))
    } else {
        match cursor {
            None => Ok((n, None)),
            Some(c) => match crate::text::first_index(c, ':') {
                None => Err(bad_request_view("Invalid decision cursor."@)),
                Some(k) => match crate::text::parse_i64_text(c.subrange(0, k)) {
                    None => Err(bad_request_view("Invalid decision cursor."@)),
                    Some(t) => Ok((n, Some((t, c.subrange(k + 1, c.len() as int))))),
                },
            },
        }
    }
}

/// A decision cursor the list hands out (`crate::knowledge::time_cursor`) reads back, on
/// a valid page request, as the row it was made from.
pub proof fn law_decision_cursor_reads_back(
    limit: Option<i64>,
    status: Option<Seq<char>>,
    created_at: i64,
    id: Seq<char>,
)
    requires
        decision_page_result(limit, status, None) is Ok,
    ensures
        decision_page_result(limit, status, Some(crate::knowledge::time_cursor_text(created_at, id)))
            == Ok::<(i64, Option<(int, Seq<char>)>), ErrorView>(
            (decision_page_result(limit, status, None)->Ok_0.0, Some((created_at as int, id))),
        ),
{
    reveal_strlit(":");
    assert(":"@ =~= seq![':']);
    crate::text::lemma_split_after_signed_decimal(created_at, ':', id);
}

pub fn decision_page(limit: Option<i64>, status: Option<&str>, cursor: Option<&str>) -> (r: Result<
    (i64, Option<(i64, String)>),
    AppError,
>)
    ensures
        match decision_page_result(
            limit,
            match status {
                Some(v) => Some(v@),
                None => None,
            },
            match cursor {
                Some(c) => Some(c@),
                None => None,
            },
        ) {
            Ok((n, None)) => r == Ok::<(i64, Option<(i64, String)>), AppError>((n, None)),
            Ok((n, Some((t, id)))) => (r matches Ok((m, Some((u, x)))) && m == n && u == t && x@ == id),
            Err(v) => (r matches Err(e) && e@ == v),
        },
{
    let n = match limit {
        Some(n) => n,
        None => 50,
    };
    if !(1 <= n && n <= 200) {
        return Err(AppError::bad_request("limit must be between 1 and 200."));
    }
    if let Some(v) = status {
        if !(str_eq(v, "pending") || str_eq(v, "allowed") || str_eq(v, "denied") || str_eq(
            v,
            "deferred",
        ) || str_eq(v, "expired") || str_eq(v, "stale")) {
            return Err(AppError::bad_request("Invalid decision status filter."));
        }
    }
    match cursor {
        None => Ok((n, None)),
        Some(c) => {
            let chars = crate::text::chars_of(c);
            let k = match crate::text::find_char(&chars, ':') {
                Some(k) => k,
                None => {
                    return Err(AppError::bad_request("Invalid decision cursor."));
                },
            };
            proof {
                crate::text::lemma_first_index(chars@, ':');
            }
            assert(k < chars.len());
            let time = match crate::text::parse_i64(&crate::text::slice_chars(&chars, 0, k)) {
                Some(t) => t,
                None => {
                    return Err(AppError::bad_request("Invalid decision cursor."));
                },
            };
            let id = crate::text::string_from_chars(&crate::text::slice_chars(&chars, k + 1, chars.len()));
            Ok((n, Some((time, id))))
        },
    }
}

/// A decision's generation history: 50 by default, 1 to 200, after a positive generation.
pub fn decision_history_limit(cursor: Option<i64>, limit: Option<i64>) -> (r: Result<i64, AppError>)
    ensures
        ({
            let n = match limit {
                Some(n) => n,
                None => 50,
            };
            if !(1 <= n <= 200) || (cursor matches Some(c) && c <= 0) {
                (r matches Err(e) && e@ == bad_request_view(
                    "History limit must be 1–200 and cursor must be a positive generation."@,
                ))
            } else {
                r == Ok::<i64, AppError>(n)
            }
        }),
{
    let n = match limit {
        Some(n) => n,
        None => 50,
    };
    let bad_cursor = match cursor {
        Some(c) => c <= 0,
        None => false,
    };
    if !(1 <= n && n <= 200) || bad_cursor {
        return Err(
            AppError::bad_request("History limit must be 1–200 and cursor must be a positive generation."),
        );
    }
    Ok(n)
}

/// What a refusal names of the records still in the way (read up to 21): the first 20, and
/// whether more remain.
pub fn shown_blockers(ids: &Vec<String>) -> (r: (Vec<String>, bool))
    ensures
        strings(r.0@) == strings(ids@).take(if ids.len() > 20 {
            20
        } else {
            ids.len() as int
        }),
        r.1 == (ids.len() > 20),
{
    let n: usize = if ids.len() > 20 {
        20
    } else {
        ids.len()
    };
    let ghost want = strings(ids@).take(n as int);
    let mut shown: Vec<String> = Vec::new();
    let mut i: usize = 0;
    while i < n
        invariant
            i <= n <= ids.len(),
            want == strings(ids@).take(n as int),
            strings(shown@) == strings(ids@).take(i as int),
        decreases n - i,
    {
        let ghost before = shown@;
        let item = ids[i].as_str().to_owned();
        assert(item@ == ids@[i as int]@);
        shown.push(item);
        proof {
            assert(strings(before) =~= strings(ids@).take(i as int));
            assert forall|k: int| 0 <= k < i + 1 implies strings(shown@)[k] == strings(ids@).take(i + 1)[k] by {
                if k < i {
                    assert(shown@[k] == before[k]);
                    assert(strings(before)[k] == strings(ids@).take(i as int)[k]);
                }
            }
            assert(strings(shown@) =~= strings(ids@).take(i + 1));
        }
        i = i + 1;
    }
    (shown, ids.len() > 20)
}

/// The refusal while current scoped decisions are unresolved; none when all are resolved.
pub open spec fn decision_required_view() -> ErrorView {
    conflict_view(
        "decision_required"@,
        "Resolve or reopen the current scoped decision before continuing ownership-dependent work."@,
    )
}

pub fn check_decisions_resolved(pending: usize) -> (r: Result<(), AppError>)
    ensures
        r is Ok <==> pending == 0,
        r matches Err(e) ==> e@ == decision_required_view(),
{
    if pending > 0 {
        return Err(
            AppError::conflict(
                "decision_required",
                "Resolve or reopen the current scoped decision before continuing ownership-dependent work.",
            ),
        );
    }
    Ok(())
}

} // verus!
