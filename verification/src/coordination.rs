//! Projects, tasks and attempts: request checks, the work status a task shows, who may
//! claim it, and whether an attempt still owns its task.
use vstd::prelude::*;

use crate::history::JsonTree;

use crate::auth::Actor;
use crate::error::{
    bad_request_view, conflict_view, forbidden_view, human_gate_view, AppError, ErrorView,
};
use crate::text::{str_eq, utf8_len};
use crate::validation::{bounded_message, bounded_ok, check_bounded, strings};

verus! {

/// The instruction version agents acknowledge before claiming.
pub const INSTRUCTION_VERSION: &'static str = "coordination-v8";

/// Coordination text: at most `max` bytes, no NUL, nonempty when required.
pub fn bounded(value: &str, name: &str, max: usize, required: bool) -> (r: Result<(), AppError>)
    ensures
        r is Ok <==> bounded_ok(value@, max as nat, required),
        r matches Err(e) ==> e@ == bad_request_view(bounded_message(name@, max as nat, required)),
{
    check_bounded(value, name, max, required)
}

/// The first item among the first `n` that is not bounded required text of `max` bytes.
pub open spec fn list_error(values: Seq<Seq<char>>, n: nat, name: Seq<char>, max: nat) -> Option<
    ErrorView,
>
    decreases n,
{
    if n == 0 {
        None
    } else if list_error(values, (n - 1) as nat, name, max) is Some {
        list_error(values, (n - 1) as nat, name, max)
    } else if !bounded_ok(values[n - 1], max, true) {
        Some(bad_request_view(bounded_message(name, max, true)))
    } else {
        None
    }
}

proof fn lemma_list_error_stable(values: Seq<Seq<char>>, a: nat, b: nat, name: Seq<char>, max: nat)
    requires
        a <= b,
        list_error(values, a, name, max) is Some,
    ensures
        list_error(values, b, name, max) == list_error(values, a, name, max),
    decreases b - a,
{
    if a < b {
        lemma_list_error_stable(values, a, (b - 1) as nat, name, max);
    }
}

/// Checks each value in order as bounded required text.
pub fn check_each_bounded(values: &Vec<String>, name: &str, max: usize) -> (r: Result<(), AppError>)
    ensures
        match list_error(strings(values@), values.len() as nat, name@, max as nat) {
            None => r is Ok,
            Some(v) => (r matches Err(e) && e@ == v),
        },
{
    let ghost vs = strings(values@);
    let mut j: usize = 0;
    while j < values.len()
        invariant
            j <= values.len(),
            vs == strings(values@),
            list_error(vs, j as nat, name@, max as nat) is None,
        decreases values.len() - j,
    {
        let checked = check_bounded(values[j].as_str(), name, max, true);
        if checked.is_err() {
            proof {
                assert(list_error(vs, (j + 1) as nat, name@, max as nat) == Some(
                    bad_request_view(bounded_message(name@, max as nat, true)),
                ));
                lemma_list_error_stable(vs, (j + 1) as nat, values.len() as nat, name@, max as nat);
            }
            return checked;
        }
        j = j + 1;
    }
    Ok(())
}

pub open spec fn criteria_error(values: Seq<Seq<char>>) -> Option<ErrorView> {
    if values.len() == 0 || values.len() > 100 {
        Some(bad_request_view("Provide 1–100 acceptance criteria."@))
    } else {
        list_error(values, values.len(), "acceptance criterion"@, 2048)
    }
}

/// 1 to 100 acceptance criteria, each bounded required text.
pub fn criteria(values: &Vec<String>) -> (r: Result<(), AppError>)
    ensures
        match criteria_error(strings(values@)) {
            None => r is Ok,
            Some(v) => (r matches Err(e) && e@ == v),
        },
{
    if values.len() == 0 || values.len() > 100 {
        return Err(AppError::bad_request("Provide 1–100 acceptance criteria."));
    }
    check_each_bounded(values, "acceptance criterion", 2048)
}

/// Project setup and delegation are for a human operator.
pub fn admin_or_operator(actor: &Actor) -> (r: Result<(), AppError>)
    ensures
        r is Ok <==> actor.kind@ == "human"@,
        r matches Err(e) ==> e@ == human_gate_view(
            "project_administration"@,
            "A human operator manages project setup and delegation."@,
        ),
{
    if !str_eq(actor.kind.as_str(), "human") {
        return Err(
            AppError::human_gate(
                "project_administration",
                "A human operator manages project setup and delegation.",
            ),
        );
    }
    Ok(())
}

/// Whom a task-definition grant delegates to.
pub struct TaskDefinitionGrantInput {
    pub target_kind: String,
    pub agent_principal_id: Option<String>,
    pub agent_role: Option<String>,
}

/// A grant names one agent principal (and no role), or the agent role (and no principal).
pub open spec fn grant_target_ok(input: TaskDefinitionGrantInput) -> bool {
    (input.target_kind@ == "principal"@ && input.agent_principal_id is Some && input.agent_role is None)
        || (input.target_kind@ == "role"@ && input.agent_principal_id is None && (
    input.agent_role matches Some(r) && r@ == "agent"@))
}

pub fn task_definition_grant_input(input: &TaskDefinitionGrantInput) -> (r: Result<(), AppError>)
    ensures
        r is Ok <==> grant_target_ok(*input),
        r matches Err(e) ==> e@ == bad_request_view(
            "A task-definition grant targets either one agent principal or the agent role."@,
        ),
{
    let kind = input.target_kind.as_str();
    let role_is_agent = match &input.agent_role {
        Some(r) => str_eq(r.as_str(), "agent"),
        None => false,
    };
    if str_eq(kind, "principal") && input.agent_principal_id.is_some() && input.agent_role.is_none() {
        return Ok(());
    }
    if str_eq(kind, "role") && input.agent_principal_id.is_none() && role_is_agent {
        return Ok(());
    }
    Err(
        AppError::bad_request(
            "A task-definition grant targets either one agent principal or the agent role.",
        ),
    )
}

/// The harness session an actor is connected through; owned work needs one.
pub fn session(actor: &Actor) -> (r: Result<&str, AppError>)
    ensures
        match actor.session_id {
            Some(s) => (r matches Ok(t) && t@ == s@),
            None => (r matches Err(e) && e@ == forbidden_view(
                "Connect a harness session before claiming or changing owned work."@,
            )),
        },
{
    match &actor.session_id {
        Some(s) => Ok(s.as_str()),
        None => Err(
            AppError::forbidden("Connect a harness session before claiming or changing owned work."),
        ),
    }
}

/// A project or task listing query.
pub struct Page {
    pub cursor: Option<String>,
    pub limit: Option<i64>,
    pub exclude_done: Option<bool>,
}

impl Page {
    /// The page size: 50 by default, 1 to 200; a cursor has at most 128 bytes.
    pub fn limit(&self) -> (r: Result<i64, AppError>)
        ensures
            ({
                let n = match self.limit {
                    Some(n) => n,
                    None => 50,
                };
                if !(1 <= n <= 200) {
                    (r matches Err(e) && e@ == bad_request_view("limit must be between 1 and 200."@))
                } else if (self.cursor matches Some(c) && utf8_len(c@) > 128) {
                    (r matches Err(e) && e@ == bad_request_view("Invalid cursor."@))
                } else {
                    r == Ok::<i64, AppError>(n)
                }
            }),
    {
        let n = match self.limit {
            Some(n) => n,
            None => 50,
        };
        if !(1 <= n && n <= 200) {
            return Err(AppError::bad_request("limit must be between 1 and 200."));
        }
        let long_cursor = match &self.cursor {
            Some(c) => crate::text::byte_len(c.as_str()) > 128,
            None => false,
        };
        if long_cursor {
            return Err(AppError::bad_request("Invalid cursor."));
        }
        Ok(n)
    }
}

/// What a task's work status is computed from.
pub struct TaskState {
    pub lifecycle: String,
    pub has_current_attempt: bool,
    pub attempt_state: Option<String>,
    pub attempt_expires: Option<i64>,
    pub owner_authorized: bool,
    pub decisions_ready: bool,
    pub objective_children_ready: bool,
    pub workflow_status: Option<String>,
    pub workflow_phase: Option<String>,
    pub is_workflow_activity: bool,
    pub has_blocked_reason: bool,
    pub dependencies_ready: bool,
}

/// The task's current attempt is active, unexpired at `now`, and its owner still authorized.
pub open spec fn live_owner(t: TaskState, now: i64) -> bool {
    (t.attempt_state matches Some(s) && s@ == "active"@) && (t.attempt_expires matches Some(v)
        && v > now) && t.owner_authorized
}

/// The work status a task shows at `now`.
pub open spec fn task_status(t: TaskState, now: i64) -> Seq<char> {
    if t.lifecycle@ != "open"@ {
        t.lifecycle@
    } else if t.has_current_attempt {
        if live_owner(t, now) {
            if t.decisions_ready && t.objective_children_ready {
                "in_progress"@
            } else {
                "blocked"@
            }
        } else {
            "recovery_required"@
        }
    } else if !t.decisions_ready || !t.objective_children_ready {
        "blocked"@
    } else if t.workflow_status is Some {
        t.workflow_status->Some_0@
    } else if (t.workflow_phase matches Some(p) && p@ == "review"@) {
        "waiting_review"@
    } else if (t.workflow_phase matches Some(p) && p@ == "integration"@) {
        "waiting_integration"@
    } else if t.is_workflow_activity {
        "waiting_review"@
    } else if t.has_blocked_reason || !t.dependencies_ready {
        "blocked"@
    } else {
        "ready"@
    }
}

fn text_of(s: &str) -> (r: String)
    ensures
        r@ == s@,
{
    s.to_owned()
}

pub fn status(task: &TaskState, now: i64) -> (r: String)
    ensures
        r@ == task_status(*task, now),
{
    if !str_eq(task.lifecycle.as_str(), "open") {
        return text_of(task.lifecycle.as_str());
    }
    if task.has_current_attempt {
        let active = match &task.attempt_state {
            Some(s) => str_eq(s.as_str(), "active"),
            None => false,
        };
        let unexpired = match task.attempt_expires {
            Some(v) => v > now,
            None => false,
        };
        return if active && unexpired && task.owner_authorized {
            if task.decisions_ready && task.objective_children_ready {
                text_of("in_progress")
            } else {
                text_of("blocked")
            }
        } else {
            text_of("recovery_required")
        };
    }
    if !task.decisions_ready || !task.objective_children_ready {
        return text_of("blocked");
    }
    if let Some(s) = &task.workflow_status {
        return text_of(s.as_str());
    }
    match &task.workflow_phase {
        Some(p) => {
            if str_eq(p.as_str(), "review") {
                return text_of("waiting_review");
            }
            if str_eq(p.as_str(), "integration") {
                return text_of("waiting_integration");
            }
        },
        None => {},
    }
    if task.is_workflow_activity {
        return text_of("waiting_review");
    }
    if task.has_blocked_reason || !task.dependencies_ready {
        text_of("blocked")
    } else {
        text_of("ready")
    }
}

/// A task shows `in_progress` only while a live owner holds it and its decisions and
/// objective children are all ready; a live-owned task missing either shows `blocked`.
pub proof fn law_in_progress_means_live_and_unblocked(t: TaskState, now: i64)
    requires
        t.lifecycle@ != "in_progress"@,
        t.workflow_status matches Some(w) ==> w@ != "in_progress"@,
    ensures
        task_status(t, now) == "in_progress"@ ==> {
            &&& t.lifecycle@ == "open"@
            &&& t.has_current_attempt
            &&& live_owner(t, now)
            &&& t.decisions_ready
            &&& t.objective_children_ready
        },
        t.lifecycle@ == "open"@ && t.has_current_attempt && live_owner(t, now) && !(
        t.decisions_ready && t.objective_children_ready) ==> task_status(t, now) == "blocked"@,
{
    reveal_strlit("in_progress");
    reveal_strlit("blocked");
    reveal_strlit("recovery_required");
    reveal_strlit("waiting_review");
    reveal_strlit("waiting_integration");
    reveal_strlit("ready");
    assert("in_progress"@.len() == 11);
    assert("blocked"@.len() == 7);
    assert("recovery_required"@.len() == 17);
    assert("waiting_review"@.len() == 14);
    assert("waiting_integration"@.len() == 19);
    assert("ready"@.len() == 5);
}

/// A task shows `ready` only when it is open, unowned, unblocked, outside any review or
/// integration flow, and its decisions, objective children and prerequisites are all done.
pub proof fn law_ready_means_claimable(t: TaskState, now: i64)
    requires
        task_status(t, now) == "ready"@,
        t.workflow_status is None,
        t.lifecycle@ != "ready"@,
    ensures
        t.lifecycle@ == "open"@,
        !t.has_current_attempt,
        t.decisions_ready && t.objective_children_ready && t.dependencies_ready,
        !t.has_blocked_reason && !t.is_workflow_activity,
{
    reveal_strlit("open");
    reveal_strlit("ready");
    reveal_strlit("in_progress");
    reveal_strlit("blocked");
    reveal_strlit("recovery_required");
    reveal_strlit("waiting_review");
    reveal_strlit("waiting_integration");
    assert("ready"@.len() == 5);
    assert("in_progress"@.len() == 11);
    assert("blocked"@.len() == 7);
    assert("recovery_required"@.len() == 17);
    assert("waiting_review"@.len() == 14);
    assert("waiting_integration"@.len() == 19);
}

/// A claim request: the mode, and an explicit task with the revision its caller read.
pub struct ClaimRequest {
    pub mode: String,
    pub task_id: Option<String>,
    pub expected_task_revision: Option<i64>,
    pub policy_revision: i64,
    pub instruction_version: String,
}

pub open spec fn claim_request_error(input: ClaimRequest) -> Option<ErrorView> {
    if !(input.mode@ == "work"@ || input.mode@ == "recovery"@) {
        Some(bad_request_view("mode must be work or recovery."@))
    } else if (input.task_id is Some) != (input.expected_task_revision is Some) {
        Some(
            bad_request_view(
                "An explicit task claim requires its expected_task_revision; next-eligible claims omit both."@,
            ),
        )
    } else {
        None
    }
}

pub fn check_claim_request(input: &ClaimRequest) -> (r: Result<(), AppError>)
    ensures
        match claim_request_error(*input) {
            None => r is Ok,
            Some(v) => (r matches Err(e) && e@ == v),
        },
{
    let mode = input.mode.as_str();
    if !(str_eq(mode, "work") || str_eq(mode, "recovery")) {
        return Err(AppError::bad_request("mode must be work or recovery."));
    }
    if input.task_id.is_some() != input.expected_task_revision.is_some() {
        return Err(
            AppError::bad_request(
                "An explicit task claim requires its expected_task_revision; next-eligible claims omit both.",
            ),
        );
    }
    Ok(())
}

/// Why a claim may not proceed before a task is chosen, or `None`.
pub open spec fn claim_gate_refusal(
    input: ClaimRequest,
    project_policy_revision: i64,
    actor_kind: Seq<char>,
    instructions_acknowledged: bool,
    manual_recovery: bool,
) -> Option<ErrorView> {
    if project_policy_revision != input.policy_revision || input.instruction_version@
        != INSTRUCTION_VERSION@ {
        Some(
            conflict_view(
                "policy_changed"@,
                "Read and acknowledge the current orientation before claiming."@,
            ),
        )
    } else if actor_kind == "agent"@ && !instructions_acknowledged {
        Some(
            conflict_view(
                "instructions_required"@,
                "Read orientation and acknowledge its required sections before claiming."@,
            ),
        )
    } else if input.mode@ == "recovery"@ && manual_recovery && actor_kind != "human"@ {
        Some(
            human_gate_view(
                "manual_recovery"@,
                "This project requires a human operator to inspect and recover expired work."@,
            ),
        )
    } else {
        None
    }
}

/// The checks a claim passes before a task is chosen: the current policy and instructions,
/// an acknowledging agent, and a human for manual recovery.
pub fn check_claim_gate(
    input: &ClaimRequest,
    project_policy_revision: i64,
    actor_kind: &str,
    instructions_acknowledged: bool,
    manual_recovery: bool,
) -> (r: Result<(), AppError>)
    ensures
        match claim_gate_refusal(
            *input,
            project_policy_revision,
            actor_kind@,
            instructions_acknowledged,
            manual_recovery,
        ) {
            None => r is Ok,
            Some(v) => (r matches Err(e) && e@ == v),
        },
{
    if project_policy_revision != input.policy_revision || !str_eq(
        input.instruction_version.as_str(),
        INSTRUCTION_VERSION,
    ) {
        return Err(
            AppError::conflict(
                "policy_changed",
                "Read and acknowledge the current orientation before claiming.",
            ),
        );
    }
    if str_eq(actor_kind, "agent") && !instructions_acknowledged {
        return Err(
            AppError::conflict(
                "instructions_required",
                "Read orientation and acknowledge its required sections before claiming.",
            ),
        );
    }
    if str_eq(input.mode.as_str(), "recovery") && manual_recovery && !str_eq(actor_kind, "human") {
        return Err(
            AppError::human_gate(
                "manual_recovery",
                "This project requires a human operator to inspect and recover expired work.",
            ),
        );
    }
    Ok(())
}

/// The message for a claim on an archived task.
pub open spec fn archived_message() -> Seq<char> {
    "Restore this"@ + " task before claiming work."@
}

fn archived_text() -> (s: String)
    ensures
        s@ == archived_message(),
{
    let mut s = "Restore this".to_owned();
    s.append(" task before claiming work.");
    s
}

/// The message for releasing an unresolved recovery back to the queue.
pub open spec fn unresolved_recovery_message() -> Seq<char> {
    "Resolve the recovery inspection before requeuing this"@ + " task, or release it as blocked."@
}

fn unresolved_recovery_text() -> (s: String)
    ensures
        s@ == unresolved_recovery_message(),
{
    let mut s = "Resolve the recovery inspection before requeuing this".to_owned();
    s.append(" task, or release it as blocked.");
    s
}

/// Why the chosen task may not be claimed in this mode, or `None`: an archived task, a
/// revision other than the one read, or a status other than `ready` (work) or
/// `recovery_required` (recovery).
pub open spec fn claim_target_refusal(
    mode: Seq<char>,
    archived: bool,
    expected_revision: Option<i64>,
    revision: i64,
    status: Seq<char>,
    task: JsonTree,
) -> Option<ErrorView> {
    if archived {
        Some(conflict_view("task_archived"@, archived_message()))
    } else if (expected_revision matches Some(v) && v != revision) {
        Some(
            conflict_view(
                "revision_conflict"@,
                "The task changed after selection. Read its current revision."@,
            ),
        )
    } else if status != (if mode == "work"@ {
        "ready"@
    } else {
        "recovery_required"@
    }) {
        Some(
            ErrorView {
                details: seq![("task"@, crate::error::DetailValueView::Json(task))],
                ..conflict_view("claim_conflict"@, "The task is not eligible for this claim mode."@)
            },
        )
    } else {
        None
    }
}

pub fn check_claim_target(
    mode: &str,
    archived: bool,
    expected_revision: Option<i64>,
    revision: i64,
    status: &str,
    task: JsonTree,
) -> (r: Result<(), AppError>)
    ensures
        match claim_target_refusal(mode@, archived, expected_revision, revision, status@, task) {
            None => r is Ok,
            Some(v) => (r matches Err(e) && e@ == v),
        },
{
    if archived {
        return Err(AppError::conflict("task_archived", archived_text().as_str()));
    }
    let stale = match expected_revision {
        Some(v) => v != revision,
        None => false,
    };
    if stale {
        return Err(
            AppError::conflict(
                "revision_conflict",
                "The task changed after selection. Read its current revision.",
            ),
        );
    }
    let required = if str_eq(mode, "work") {
        "ready"
    } else {
        "recovery_required"
    };
    if !str_eq(status, required) {
        let mut details = Vec::new();
        details.push(crate::error::Detail::json("task", task));
        let e = AppError::conflict("claim_conflict", "The task is not eligible for this claim mode.")
            .with_details(details);
        assert(e@.details =~= seq![("task"@, crate::error::DetailValueView::Json(task))]);
        return Err(e);
    }
    Ok(())
}

/// Integer division rounding toward zero, as Rust's `/` does.
pub open spec fn trunc_div(x: int, d: int) -> int {
    if x >= 0 {
        x / d
    } else {
        -((-x) / d)
    }
}

/// How often to renew: a third of the lease, at most once a minute.
pub fn renew_after_seconds(lease_seconds: i64) -> (r: i64)
    ensures
        r == (if trunc_div(lease_seconds as int, 3) < 60 {
            trunc_div(lease_seconds as int, 3)
        } else {
            60
        }),
{
    let third = lease_seconds / 3;
    if third < 60 {
        third
    } else {
        60
    }
}

/// The lease left at `now`, never negative.
pub fn lease_remaining(expires_at: i64, now: i64) -> (r: i64)
    requires
        expires_at - now <= i64::MAX,
    ensures
        r == (if expires_at - now > 0 {
            expires_at - now
        } else {
            0
        }),
{
    if expires_at > now {
        expires_at - now
    } else {
        0
    }
}

/// The renewal cadence for the lease left: a third of it in seconds, at most 60.
pub fn renew_after_remaining(remaining_ms: i64) -> (r: i64)
    ensures
        r == (if trunc_div(remaining_ms as int, 3000) < 60 {
            trunc_div(remaining_ms as int, 3000)
        } else {
            60
        }),
{
    let s = remaining_ms / 3000;
    if s < 60 {
        s
    } else {
        60
    }
}

/// An attempt as ownership checks see it.
pub struct AttemptState {
    pub owner_id: String,
    pub session_id: String,
    pub credential_id: Option<String>,
    pub generation: i64,
    pub state: String,
    pub expires_at: i64,
}

/// The task an attempt claims to own, as ownership checks see it.
pub struct OwnedTask {
    pub current_attempt_id: Option<String>,
    pub generation: i64,
    pub owner_authorized: bool,
}

pub open spec fn same_opt(a: Option<String>, b: Option<String>) -> bool {
    match (a, b) {
        (Some(x), Some(y)) => x@ == y@,
        (None, None) => true,
        _ => false,
    }
}

/// Why `actor` may not act on attempt `id` of the given generation at `now`, or `None`.
pub open spec fn ownership_refusal(
    a: AttemptState,
    actor: Actor,
    id: Seq<char>,
    generation: i64,
    now: i64,
    t: OwnedTask,
) -> Option<ErrorView> {
    if a.owner_id@ != actor.id@ || !(actor.session_id matches Some(s) && s@ == a.session_id@)
        || !same_opt(a.credential_id, actor.credential_id) {
        Some(
            forbidden_view(
                "This attempt belongs to another session. Use a recovery claim after ownership expires."@,
            ),
        )
    } else if a.generation != generation || a.state@ != "active"@ || a.expires_at <= now {
        Some(
            conflict_view(
                "lease_expired"@,
                "This ownership grant is no longer valid. Stop changing its work and inspect recovery instructions."@,
            ),
        )
    } else if !(t.current_attempt_id matches Some(c) && c@ == id) || t.generation != generation
        || !t.owner_authorized {
        Some(conflict_view("lease_expired"@, "This attempt is no longer the current owner."@))
    } else {
        None
    }
}

fn same_option(a: &Option<String>, b: &Option<String>) -> (r: bool)
    ensures
        r == same_opt(*a, *b),
{
    match (a, b) {
        (Some(x), Some(y)) => str_eq(x.as_str(), y.as_str()),
        (None, None) => true,
        _ => false,
    }
}

/// Only the session that holds a live, current grant acts on an attempt.
pub fn check_ownership(
    attempt: &AttemptState,
    actor: &Actor,
    id: &str,
    generation: i64,
    now: i64,
    task: &OwnedTask,
) -> (r: Result<(), AppError>)
    ensures
        match ownership_refusal(*attempt, *actor, id@, generation, now, *task) {
            None => r is Ok,
            Some(v) => (r matches Err(e) && e@ == v),
        },
{
    let same_session = match &actor.session_id {
        Some(s) => str_eq(s.as_str(), attempt.session_id.as_str()),
        None => false,
    };
    if !str_eq(attempt.owner_id.as_str(), actor.id.as_str()) || !same_session || !same_option(
        &attempt.credential_id,
        &actor.credential_id,
    ) {
        return Err(
            AppError::forbidden(
                "This attempt belongs to another session. Use a recovery claim after ownership expires.",
            ),
        );
    }
    if attempt.generation != generation || !str_eq(attempt.state.as_str(), "active")
        || attempt.expires_at <= now {
        return Err(
            AppError::conflict(
                "lease_expired",
                "This ownership grant is no longer valid. Stop changing its work and inspect recovery instructions.",
            ),
        );
    }
    let current = match &task.current_attempt_id {
        Some(c) => str_eq(c.as_str(), id),
        None => false,
    };
    if !current || task.generation != generation || !task.owner_authorized {
        return Err(AppError::conflict("lease_expired", "This attempt is no longer the current owner."));
    }
    Ok(())
}

/// A checkpoint's text, as checked before its owner is.
pub struct CheckpointText {
    pub summary: String,
    pub current_action: String,
    pub next_step: String,
    pub blockers: Vec<String>,
}

pub open spec fn checkpoint_error(c: CheckpointText) -> Option<ErrorView> {
    let blockers = strings(c.blockers@);
    if !bounded_ok(c.summary@, 8192, true) {
        Some(bad_request_view(bounded_message("summary"@, 8192, true)))
    } else if !bounded_ok(c.current_action@, 4096, false) {
        Some(bad_request_view(bounded_message("current_action"@, 4096, false)))
    } else if !bounded_ok(c.next_step@, 4096, false) {
        Some(bad_request_view(bounded_message("next_step"@, 4096, false)))
    } else if blockers.len() > 50 {
        Some(bad_request_view("Use at most 50 blockers."@))
    } else {
        list_error(blockers, blockers.len(), "blocker"@, 2048)
    }
}

pub fn check_checkpoint(c: &CheckpointText) -> (r: Result<(), AppError>)
    ensures
        match checkpoint_error(*c) {
            None => r is Ok,
            Some(v) => (r matches Err(e) && e@ == v),
        },
{
    check_bounded(c.summary.as_str(), "summary", 8192, true)?;
    check_bounded(c.current_action.as_str(), "current_action", 4096, false)?;
    check_bounded(c.next_step.as_str(), "next_step", 4096, false)?;
    if c.blockers.len() > 50 {
        return Err(AppError::bad_request("Use at most 50 blockers."));
    }
    check_each_bounded(&c.blockers, "blocker", 2048)
}

/// A recovery resolution must say it inspected saved work and running jobs, and choose to
/// resume or restart.
pub open spec fn recovery_choice_ok(disposition: Seq<char>, saved_work_checked: bool, running_jobs_checked: bool) -> bool {
    (disposition == "resume"@ || disposition == "restart"@) && saved_work_checked
        && running_jobs_checked
}

pub fn check_recovery_resolution(
    summary: &str,
    disposition: &str,
    saved_work_checked: bool,
    running_jobs_checked: bool,
) -> (r: Result<(), AppError>)
    ensures
        !bounded_ok(summary@, 8192, true) ==> (r matches Err(e) && e@ == bad_request_view(
            bounded_message("summary"@, 8192, true),
        )),
        bounded_ok(summary@, 8192, true) && !recovery_choice_ok(
            disposition@,
            saved_work_checked,
            running_jobs_checked,
        ) ==> (r matches Err(e) && e@ == bad_request_view(
            "Recovery must inspect saved work and running jobs before choosing resume or restart. Release as blocked if inspection is incomplete."@,
        )),
        bounded_ok(summary@, 8192, true) && recovery_choice_ok(
            disposition@,
            saved_work_checked,
            running_jobs_checked,
        ) ==> r is Ok,
{
    check_bounded(summary, "summary", 8192, true)?;
    if !(str_eq(disposition, "resume") || str_eq(disposition, "restart")) || !saved_work_checked
        || !running_jobs_checked {
        return Err(
            AppError::bad_request(
                "Recovery must inspect saved work and running jobs before choosing resume or restart. Release as blocked if inspection is incomplete.",
            ),
        );
    }
    Ok(())
}

/// A recovery attempt must be resolved before it is released other than as blocked.
pub fn check_release(attempt_mode: &str, blocked: bool) -> (r: Result<(), AppError>)
    ensures
        r is Ok <==> !(attempt_mode@ == "recovery"@ && !blocked),
        r matches Err(e) ==> e@ == conflict_view(
            "recovery_unresolved"@,
            unresolved_recovery_message(),
        ),
{
    if str_eq(attempt_mode, "recovery") && !blocked {
        return Err(
            AppError::conflict(
                "recovery_unresolved",
                unresolved_recovery_text().as_str(),
            ),
        );
    }
    Ok(())
}

/// A checkout an attempt registers for its editable work.
pub struct CheckoutInput {
    pub workstation_id: String,
    pub identity: String,
    pub path: String,
    pub branch: String,
    pub base_revision: String,
    pub clean: bool,
}

/// Each field bounded required text of at most 4096 bytes, in order, and a clean worktree.
pub open spec fn checkout_input_error(c: CheckoutInput) -> Option<ErrorView> {
    if !bounded_ok(c.workstation_id@, 4096, true) {
        Some(bad_request_view(bounded_message("workstation_id"@, 4096, true)))
    } else if !bounded_ok(c.identity@, 4096, true) {
        Some(bad_request_view(bounded_message("identity"@, 4096, true)))
    } else if !bounded_ok(c.path@, 4096, true) {
        Some(bad_request_view(bounded_message("path"@, 4096, true)))
    } else if !bounded_ok(c.branch@, 4096, true) {
        Some(bad_request_view(bounded_message("branch"@, 4096, true)))
    } else if !bounded_ok(c.base_revision@, 4096, true) {
        Some(bad_request_view(bounded_message("base_revision"@, 4096, true)))
    } else if !c.clean {
        Some(
            conflict_view(
                "dirty_checkout"@,
                "Use a separate clean worktree. Preserve existing edits without resetting or stashing them automatically."@,
            ),
        )
    } else {
        None
    }
}

pub fn validate_checkout_input(c: &CheckoutInput) -> (r: Result<(), AppError>)
    ensures
        match checkout_input_error(*c) {
            None => r is Ok,
            Some(v) => (r matches Err(e) && e@ == v),
        },
{
    check_bounded(c.workstation_id.as_str(), "workstation_id", 4096, true)?;
    check_bounded(c.identity.as_str(), "identity", 4096, true)?;
    check_bounded(c.path.as_str(), "path", 4096, true)?;
    check_bounded(c.branch.as_str(), "branch", 4096, true)?;
    check_bounded(c.base_revision.as_str(), "base_revision", 4096, true)?;
    if !c.clean {
        return Err(
            AppError::conflict(
                "dirty_checkout",
                "Use a separate clean worktree. Preserve existing edits without resetting or stashing them automatically.",
            ),
        );
    }
    Ok(())
}

/// A checkout is registered by an attempt out of recovery, on the agent session's own
/// workstation, for a worktree no other live or unresolved attempt holds, once.
pub open spec fn checkout_refusal(
    attempt_mode: Seq<char>,
    actor_kind: Seq<char>,
    session_workstation: Seq<char>,
    workstation_id: Seq<char>,
    held_elsewhere: i64,
    registered: i64,
) -> Option<ErrorView> {
    if attempt_mode == "recovery"@ {
        Some(
            conflict_view(
                "recovery_unresolved"@,
                "Inspect prior work and jobs before registering editable work."@,
            ),
        )
    } else if actor_kind == "agent"@ && session_workstation != workstation_id {
        Some(forbidden_view("Register a checkout on this session's declared workstation."@))
    } else if held_elsewhere > 0 {
        Some(
            conflict_view(
                "checkout_in_use"@,
                "This checkout belongs to active or unresolved earlier work. Prepare a different worktree."@,
            ),
        )
    } else if registered > 0 {
        Some(
            conflict_view(
                "checkout_registered"@,
                "This attempt already has a registered checkout. Retry its original mutation key to inspect the result."@,
            ),
        )
    } else {
        None
    }
}

pub fn check_checkout(
    attempt_mode: &str,
    actor_kind: &str,
    session_workstation: &str,
    workstation_id: &str,
    held_elsewhere: i64,
    registered: i64,
) -> (r: Result<(), AppError>)
    ensures
        match checkout_refusal(
            attempt_mode@,
            actor_kind@,
            session_workstation@,
            workstation_id@,
            held_elsewhere,
            registered,
        ) {
            None => r is Ok,
            Some(v) => (r matches Err(e) && e@ == v),
        },
{
    if str_eq(attempt_mode, "recovery") {
        return Err(
            AppError::conflict(
                "recovery_unresolved",
                "Inspect prior work and jobs before registering editable work.",
            ),
        );
    }
    if str_eq(actor_kind, "agent") && !str_eq(session_workstation, workstation_id) {
        return Err(AppError::forbidden("Register a checkout on this session's declared workstation."));
    }
    if held_elsewhere > 0 {
        return Err(
            AppError::conflict(
                "checkout_in_use",
                "This checkout belongs to active or unresolved earlier work. Prepare a different worktree.",
            ),
        );
    }
    if registered > 0 {
        return Err(
            AppError::conflict(
                "checkout_registered",
                "This attempt already has a registered checkout. Retry its original mutation key to inspect the result.",
            ),
        );
    }
    Ok(())
}

/// The event sequence number a page starts after: the cursor read as a signed integer,
/// `0` without one.
pub fn event_cursor(cursor: Option<&str>) -> (r: Result<i64, AppError>)
    ensures
        match cursor {
            None => r == Ok::<i64, AppError>(0),
            Some(c) => match crate::text::parse_i64_text(c@) {
                Some(v) => (r matches Ok(x) && x == v),
                None => (r matches Err(e) && e@ == bad_request_view("Invalid event cursor."@)),
            },
        },
{
    match cursor {
        None => Ok(0),
        Some(c) => match crate::text::parse_i64(&crate::text::chars_of(c)) {
            Some(v) => Ok(v),
            None => Err(AppError::bad_request("Invalid event cursor.")),
        },
    }
}

/// The cursor after an event page: the last event's sequence number in decimal.
pub fn event_next_cursor(seq: i64) -> (r: String)
    ensures
        r@ == crate::history::signed_decimal(seq as int),
{
    crate::text::string_from_chars(&crate::history::i64_text(seq))
}

/// An event cursor the list hands out reads back as the sequence number it was made from.
pub proof fn law_event_cursor_reads_back(seq: i64)
    ensures
        crate::text::parse_i64_text(crate::history::signed_decimal(seq as int)) == Some(seq as int),
{
    crate::text::lemma_parse_signed_decimal(seq);
}

/// Only the connected agent session itself acknowledges instructions.
pub fn check_acknowledger(actor: &Actor, session_id: &str) -> (r: Result<(), AppError>)
    ensures
        r is Ok <==> actor.kind@ == "agent"@ && crate::auth::opt_text(actor.session_id) == Some(session_id@),
        r matches Err(e) ==> e@ == forbidden_view(
            "Acknowledge instructions using the connected agent session and its proof."@,
        ),
{
    let own = match &actor.session_id {
        Some(s) => str_eq(s.as_str(), session_id),
        None => false,
    };
    if !str_eq(actor.kind.as_str(), "agent") || !own {
        return Err(
            AppError::forbidden("Acknowledge instructions using the connected agent session and its proof."),
        );
    }
    Ok(())
}

/// An acknowledgment names the project's current policy revision, the current instruction
/// version and exactly the one required section.
pub open spec fn acknowledgment_current(
    project_revision: i64,
    policy_revision: i64,
    instruction_version: Seq<char>,
    sections: Seq<Seq<char>>,
    required_section: Seq<char>,
) -> bool {
    project_revision == policy_revision && instruction_version == INSTRUCTION_VERSION@ && sections
        == seq![required_section]
}

pub fn check_acknowledgment(
    project_revision: i64,
    policy_revision: i64,
    instruction_version: &str,
    sections: &Vec<String>,
    required_section: &str,
) -> (r: Result<(), AppError>)
    ensures
        r is Ok <==> acknowledgment_current(
            project_revision,
            policy_revision,
            instruction_version@,
            strings(sections@),
            required_section@,
        ),
        r matches Err(e) ==> e@ == conflict_view(
            "policy_changed"@,
            "Read the complete current orientation before acknowledging instructions."@,
        ),
{
    let ghost s = strings(sections@);
    let one = sections.len() == 1 && str_eq(sections[0].as_str(), required_section);
    proof {
        assert(s.len() == sections@.len());
        if one {
            assert(s =~= seq![required_section@]);
        } else if sections.len() == 1 {
            assert(s[0] == sections@[0]@);
            assert(s[0] != seq![required_section@][0]);
        } else {
            assert(s.len() != seq![required_section@].len());
        }
    }
    if project_revision != policy_revision || !str_eq(instruction_version, INSTRUCTION_VERSION)
        || !one {
        return Err(
            AppError::conflict(
                "policy_changed",
                "Read the complete current orientation before acknowledging instructions.",
            ),
        );
    }
    Ok(())
}

/// A listing reads one row past its limit: it shows at most `limit` rows, and when more
/// remain its next cursor is the id of the last row shown.
pub open spec fn page_next(ids: Seq<Seq<char>>, limit: int) -> Option<Seq<char>> {
    if ids.len() > limit {
        Some(ids[limit - 1])
    } else {
        None
    }
}

pub fn page_split(ids: &Vec<String>, limit: usize) -> (r: (usize, Option<String>))
    requires
        limit >= 1,
    ensures
        r.0 == (if ids.len() > limit {
            limit as int
        } else {
            ids.len() as int
        }),
        match page_next(strings(ids@), limit as int) {
            Some(c) => (r.1 matches Some(x) && x@ == c),
            None => r.1 is None,
        },
{
    if ids.len() > limit {
        let last = ids[limit - 1].as_str().to_owned();
        assert(strings(ids@)[limit - 1] == ids@[limit - 1]@);
        (limit, Some(last))
    } else {
        (ids.len(), None)
    }
}

/// A contributor session named by a checkpoint, and whether it is a registered subagent
/// session of the checkpointing principal in this project.
pub struct ContributorFacts {
    pub session_id: String,
    pub registered: bool,
}

/// The first of the first `n` contributors refused: an id that is not bounded text of at
/// most 128 bytes, then one that is not a registered subagent session.
pub open spec fn contributor_step_error(cs: Seq<ContributorFacts>, n: nat) -> Option<ErrorView>
    decreases n,
{
    if n == 0 {
        None
    } else if contributor_step_error(cs, (n - 1) as nat) is Some {
        contributor_step_error(cs, (n - 1) as nat)
    } else if !bounded_ok(cs[n - 1].session_id@, 128, true) {
        Some(bad_request_view(bounded_message("contributor session ID"@, 128, true)))
    } else if !cs[n - 1].registered {
        Some(
            bad_request_view(
                "Contributors must be registered subagent sessions of this principal and project."@,
            ),
        )
    } else {
        None
    }
}

pub open spec fn contributors_error(cs: Seq<ContributorFacts>) -> Option<ErrorView> {
    if cs.len() > 50 {
        Some(bad_request_view("Use at most 50 contributor sessions."@))
    } else {
        contributor_step_error(cs, cs.len())
    }
}

proof fn lemma_contributor_error_stable(cs: Seq<ContributorFacts>, a: nat, b: nat)
    requires
        a <= b,
        contributor_step_error(cs, a) is Some,
    ensures
        contributor_step_error(cs, b) == contributor_step_error(cs, a),
    decreases b - a,
{
    if a < b {
        lemma_contributor_error_stable(cs, a, (b - 1) as nat);
    }
}

pub fn check_contributors(cs: &Vec<ContributorFacts>) -> (r: Result<(), AppError>)
    ensures
        match contributors_error(cs@) {
            None => r is Ok,
            Some(v) => (r matches Err(e) && e@ == v),
        },
{
    if cs.len() > 50 {
        return Err(AppError::bad_request("Use at most 50 contributor sessions."));
    }
    let mut j: usize = 0;
    while j < cs.len()
        invariant
            j <= cs.len() <= 50,
            contributor_step_error(cs@, j as nat) is None,
        decreases cs.len() - j,
    {
        let c = &cs[j];
        let step: Option<AppError> = match check_bounded(c.session_id.as_str(), "contributor session ID", 128, true) {
            Err(e) => Some(e),
            Ok(()) => if !c.registered {
                Some(
                    AppError::bad_request(
                        "Contributors must be registered subagent sessions of this principal and project.",
                    ),
                )
            } else {
                None
            },
        };
        if let Some(e) = step {
            proof {
                assert(contributor_step_error(cs@, (j + 1) as nat) == Some(e@));
                lemma_contributor_error_stable(cs@, (j + 1) as nat, cs.len() as nat);
            }
            return Err(e);
        }
        j = j + 1;
    }
    Ok(())
}

} // verus!
