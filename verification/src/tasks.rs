//! Task definitions and lifecycle: what a create or edit request must hold, when an agent
//! may change a definition, which lifecycle actions a task permits, and the claim
//! preconditions a task lists.
use vstd::prelude::*;

use crate::auth::Actor;
use crate::coordination::{criteria, criteria_error, live_owner, session, task_status, TaskState};
use crate::error::{
    bad_request_view, conflict_view, forbidden_view, human_gate_view, AppError, ErrorView,
};
use crate::text::str_eq;
use crate::validation::{bounded_message, bounded_ok, check_bounded, strings};

verus! {

/// A new task's definition.
pub struct TaskInput {
    pub title: String,
    pub description: String,
    pub acceptance_criteria: Vec<String>,
    pub kind: String,
    pub priority: i64,
    pub planned: bool,
    pub depends_on: Vec<String>,
}

/// The first rule a task definition breaks: title, description, criteria, then the
/// priority (and, for a new task, its kind).
pub open spec fn definition_error(
    title: Seq<char>,
    description: Seq<char>,
    criteria: Seq<Seq<char>>,
) -> Option<ErrorView> {
    if !bounded_ok(title, 300, true) {
        Some(bad_request_view(bounded_message("title"@, 300, true)))
    } else if !bounded_ok(description, 32768, false) {
        Some(bad_request_view(bounded_message("description"@, 32768, false)))
    } else {
        criteria_error(criteria)
    }
}

pub open spec fn task_input_error(input: TaskInput) -> Option<ErrorView> {
    let d = definition_error(
        input.title@,
        input.description@,
        strings(input.acceptance_criteria@),
    );
    if d is Some {
        d
    } else if !(input.kind@ == "code"@ || input.kind@ == "general"@) || !(0 <= input.priority
        <= 3) {
        Some(bad_request_view("kind must be code/general and priority 0 (urgent) through 3 (low)."@))
    } else {
        None
    }
}

fn check_definition(title: &str, description: &str, acceptance: &Vec<String>) -> (r: Result<
    (),
    AppError,
>)
    ensures
        match definition_error(title@, description@, strings(acceptance@)) {
            None => r is Ok,
            Some(v) => (r matches Err(e) && e@ == v),
        },
{
    check_bounded(title, "title", 300, true)?;
    check_bounded(description, "description", 32768, false)?;
    criteria(acceptance)
}

/// Checks a new task's definition.
pub fn validate_task_input(input: &TaskInput) -> (r: Result<(), AppError>)
    ensures
        match task_input_error(*input) {
            None => r is Ok,
            Some(v) => (r matches Err(e) && e@ == v),
        },
{
    check_definition(input.title.as_str(), input.description.as_str(), &input.acceptance_criteria)?;
    let kind = input.kind.as_str();
    if !(str_eq(kind, "code") || str_eq(kind, "general")) || !(0 <= input.priority
        && input.priority <= 3) {
        return Err(
            AppError::bad_request("kind must be code/general and priority 0 (urgent) through 3 (low)."),
        );
    }
    Ok(())
}

/// An edit of an existing task's definition.
pub struct TaskEdit {
    pub title: String,
    pub description: String,
    pub acceptance_criteria: Vec<String>,
    pub priority: i64,
    pub planned: bool,
    pub depends_on: Vec<String>,
    pub expected_revision: i64,
}

pub open spec fn task_edit_error(input: TaskEdit) -> Option<ErrorView> {
    let d = definition_error(
        input.title@,
        input.description@,
        strings(input.acceptance_criteria@),
    );
    if d is Some {
        d
    } else if !(0 <= input.priority <= 3) {
        Some(bad_request_view("priority must be between 0 and 3."@))
    } else {
        None
    }
}

/// Checks an edited task definition.
pub fn validate_task_edit(input: &TaskEdit) -> (r: Result<(), AppError>)
    ensures
        match task_edit_error(*input) {
            None => r is Ok,
            Some(v) => (r matches Err(e) && e@ == v),
        },
{
    check_definition(input.title.as_str(), input.description.as_str(), &input.acceptance_criteria)?;
    if !(0 <= input.priority && input.priority <= 3) {
        return Err(AppError::bad_request("priority must be between 0 and 3."));
    }
    Ok(())
}

/// An edit needs the task's current revision, and only an unowned open or planned task
/// can be edited.
pub open spec fn edit_target_error(
    revision: i64,
    expected_revision: i64,
    has_attempt: bool,
    lifecycle: Seq<char>,
) -> Option<ErrorView> {
    if revision != expected_revision {
        Some(conflict_view("revision_conflict"@, "Read the latest task revision before editing."@))
    } else if has_attempt || !(lifecycle == "open"@ || lifecycle == "planned"@) {
        Some(
            conflict_view(
                "task_not_editable"@,
                "Only unowned open or planned tasks can be edited. Preserve active work and reconcile it first."@,
            ),
        )
    } else {
        None
    }
}

pub fn check_edit_target(revision: i64, expected_revision: i64, has_attempt: bool, lifecycle: &str) -> (r:
    Result<(), AppError>)
    ensures
        match edit_target_error(revision, expected_revision, has_attempt, lifecycle@) {
            None => r is Ok,
            Some(v) => (r matches Err(e) && e@ == v),
        },
{
    if revision != expected_revision {
        return Err(AppError::conflict("revision_conflict", "Read the latest task revision before editing."));
    }
    if has_attempt || !(str_eq(lifecycle, "open") || str_eq(lifecycle, "planned")) {
        return Err(
            AppError::conflict(
                "task_not_editable",
                "Only unowned open or planned tasks can be edited. Preserve active work and reconcile it first.",
            ),
        );
    }
    Ok(())
}

/// How many times `x` occurs in `s`.
pub open spec fn count_in(s: Seq<Seq<char>>, x: Seq<char>) -> nat
    decreases s.len(),
{
    if s.len() == 0 {
        0
    } else {
        count_in(s.drop_last(), x) + if s.last() == x {
            1nat
        } else {
            0nat
        }
    }
}

/// Two lists hold the same items, each as often, in any order: they sort to the same list.
pub open spec fn same_items(a: Seq<Seq<char>>, b: Seq<Seq<char>>) -> bool {
    a.len() == b.len() && forall|i: int| 0 <= i < a.len() ==> #[trigger] count_in(a, a[i]) == count_in(b, a[i])
}

fn count_of(v: &Vec<String>, x: &str) -> (n: usize)
    ensures
        n == count_in(strings(v@), x@),
{
    let ghost s = strings(v@);
    let mut n: usize = 0;
    let mut j: usize = 0;
    while j < v.len()
        invariant
            j <= v.len(),
            s == strings(v@),
            n == count_in(s.take(j as int), x@),
            n <= j,
        decreases v.len() - j,
    {
        proof {
            assert(s.take(j + 1).drop_last() =~= s.take(j as int));
        }
        if str_eq(v[j].as_str(), x) {
            n = n + 1;
        }
        j = j + 1;
    }
    proof {
        assert(s.take(v.len() as int) =~= s);
    }
    n
}

/// True when the two lists sort to the same list.
pub fn same_items_of(a: &Vec<String>, b: &Vec<String>) -> (r: bool)
    ensures
        r == same_items(strings(a@), strings(b@)),
{
    let ghost sa = strings(a@);
    let ghost sb = strings(b@);
    if a.len() != b.len() {
        return false;
    }
    let mut i: usize = 0;
    while i < a.len()
        invariant
            i <= a.len(),
            a.len() == b.len(),
            sa == strings(a@),
            sb == strings(b@),
            forall|k: int| 0 <= k < i ==> #[trigger] count_in(sa, sa[k]) == count_in(sb, sa[k]),
        decreases a.len() - i,
    {
        let x = a[i].as_str();
        if count_of(a, x) != count_of(b, x) {
            assert(count_in(sa, sa[i as int]) != count_in(sb, sa[i as int]));
            return false;
        }
        i = i + 1;
    }
    true
}

/// Equal lists of text, item by item.
pub fn strings_equal(a: &Vec<String>, b: &Vec<String>) -> (r: bool)
    ensures
        r == (strings(a@) == strings(b@)),
{
    let ghost sa = strings(a@);
    let ghost sb = strings(b@);
    if a.len() != b.len() {
        assert(sa.len() != sb.len());
        return false;
    }
    let mut i: usize = 0;
    while i < a.len()
        invariant
            i <= a.len(),
            a.len() == b.len(),
            sa == strings(a@),
            sb == strings(b@),
            forall|k: int| 0 <= k < i ==> sa[k] == sb[k],
        decreases a.len() - i,
    {
        if !str_eq(a[i].as_str(), b[i].as_str()) {
            assert(sa[i as int] != sb[i as int]);
            return false;
        }
        i = i + 1;
    }
    assert(sa =~= sb);
    true
}

/// What a task's definition holds now.
pub struct TaskDefinition {
    pub title: String,
    pub description: String,
    pub acceptance_criteria: Vec<String>,
    pub priority: i64,
    pub lifecycle: String,
    pub depends_on: Vec<String>,
}

/// An edit changes the definition when it changes the title, criteria, description,
/// prerequisites (in any order), priority or whether the task is planned.
pub open spec fn definition_changes(current: TaskDefinition, input: TaskEdit) -> bool {
    current.title@ != input.title@ || strings(current.acceptance_criteria@) != strings(
        input.acceptance_criteria@,
    ) || current.description@ != input.description@ || !same_items(
        strings(current.depends_on@),
        strings(input.depends_on@),
    ) || current.priority != input.priority || (current.lifecycle@ == "planned"@) != input.planned
}

pub fn definition_changed(current: &TaskDefinition, input: &TaskEdit) -> (r: bool)
    ensures
        r == definition_changes(*current, *input),
{
    !str_eq(current.title.as_str(), input.title.as_str()) || !strings_equal(
        &current.acceptance_criteria,
        &input.acceptance_criteria,
    ) || !str_eq(current.description.as_str(), input.description.as_str()) || !same_items_of(
        &current.depends_on,
        &input.depends_on,
    ) || current.priority != input.priority || str_eq(current.lifecycle.as_str(), "planned")
        != input.planned
}

/// Who may edit a definition: a human, or an agent connected through a session that holds a
/// task-definition grant, and never after contributing to a task whose definition it changes.
pub open spec fn edit_authority_error(
    actor: Actor,
    has_grant: bool,
    changed: bool,
    contributed: bool,
) -> Option<ErrorView> {
    if actor.kind@ != "agent"@ {
        None
    } else if actor.session_id is None {
        Some(forbidden_view("Connect a harness session before claiming or changing owned work."@))
    } else if !has_grant {
        Some(
            human_gate_view(
                "task_definition_grant"@,
                "A human administrator must grant this agent task-definition editing authority for this project."@,
            ),
        )
    } else if changed && contributed {
        Some(
            human_gate_view(
                "self_related_definition_change"@,
                "A human must change a task definition after this agent has contributed to it. Delegation never permits self-related requirement changes."@,
            ),
        )
    } else {
        None
    }
}

pub fn check_edit_authority(actor: &Actor, has_grant: bool, changed: bool, contributed: bool) -> (r:
    Result<(), AppError>)
    ensures
        match edit_authority_error(*actor, has_grant, changed, contributed) {
            None => r is Ok,
            Some(v) => (r matches Err(e) && e@ == v),
        },
{
    if !str_eq(actor.kind.as_str(), "agent") {
        return Ok(());
    }
    session(actor)?;
    if !has_grant {
        return Err(
            AppError::human_gate(
                "task_definition_grant",
                "A human administrator must grant this agent task-definition editing authority for this project.",
            ),
        );
    }
    if changed && contributed {
        return Err(
            AppError::human_gate(
                "self_related_definition_change",
                "A human must change a task definition after this agent has contributed to it. Delegation never permits self-related requirement changes.",
            ),
        );
    }
    Ok(())
}

/// A requested prerequisite and what the project holds for it: whether it names a task of
/// the project, and whether depending on it would close a cycle through prerequisites or
/// required objective children.
pub struct DependencyFacts {
    pub id: String,
    pub exists: bool,
    pub creates_cycle: bool,
}

pub open spec fn dependency_ids(deps: Seq<DependencyFacts>) -> Seq<Seq<char>> {
    deps.map_values(|d: DependencyFacts| d.id@)
}

/// The first of the first `n` prerequisites that is refused, checked in order: itself or a
/// repeat, then unknown, then cyclic.
pub open spec fn dependency_step_error(task_id: Seq<char>, deps: Seq<DependencyFacts>, n: nat) -> Option<
    ErrorView,
>
    decreases n,
{
    if n == 0 {
        None
    } else if dependency_step_error(task_id, deps, (n - 1) as nat) is Some {
        dependency_step_error(task_id, deps, (n - 1) as nat)
    } else {
        let j = n - 1;
        let ids = dependency_ids(deps);
        if ids[j] == task_id || exists|k: int| 0 <= k < j && ids[k] == ids[j] {
            Some(bad_request_view(("Dependencies must be distinct and cannot reference this"@ + " task."@)))
        } else if !deps[j].exists {
            Some(bad_request_view("Every dependency must identify a task in this project."@))
        } else if deps[j].creates_cycle {
            Some(conflict_view("dependency_cycle"@, "This dependency would create a cycle."@))
        } else {
            None
        }
    }
}

pub open spec fn dependency_error(task_id: Seq<char>, deps: Seq<DependencyFacts>) -> Option<ErrorView> {
    if deps.len() > 100 {
        Some(bad_request_view("A task may have at most 100 direct prerequisites."@))
    } else {
        dependency_step_error(task_id, deps, deps.len())
    }
}

proof fn lemma_dependency_error_stable(task_id: Seq<char>, deps: Seq<DependencyFacts>, a: nat, b: nat)
    requires
        a <= b,
        dependency_step_error(task_id, deps, a) is Some,
    ensures
        dependency_step_error(task_id, deps, b) == dependency_step_error(task_id, deps, a),
    decreases b - a,
{
    if a < b {
        lemma_dependency_error_stable(task_id, deps, a, (b - 1) as nat);
    }
}

/// Checks a task's requested prerequisites before they replace the current ones.
pub fn check_dependencies(task_id: &str, deps: &Vec<DependencyFacts>) -> (r: Result<(), AppError>)
    ensures
        match dependency_error(task_id@, deps@) {
            None => r is Ok,
            Some(v) => (r matches Err(e) && e@ == v),
        },
{
    if deps.len() > 100 {
        return Err(AppError::bad_request("A task may have at most 100 direct prerequisites."));
    }
    let ghost ids = dependency_ids(deps@);
    let mut j: usize = 0;
    while j < deps.len()
        invariant
            j <= deps.len(),
            deps.len() <= 100,
            ids == dependency_ids(deps@),
            dependency_step_error(task_id@, deps@, j as nat) is None,
        decreases deps.len() - j,
    {
        let d = &deps[j];
        let mut repeat = str_eq(d.id.as_str(), task_id);
        let mut k: usize = 0;
        while k < j && !repeat
            invariant
                k <= j < deps.len(),
                ids == dependency_ids(deps@),
                d == deps@[j as int],
                repeat ==> (ids[j as int] == task_id@ || exists|m: int| 0 <= m < j && ids[m] == ids[j as int]),
                !repeat ==> ids[j as int] != task_id@ && forall|m: int| 0 <= m < k ==> ids[m] != ids[j as int],
            decreases j - k,
        {
            proof {
                assert(ids[k as int] == deps@[k as int].id@);
                assert(ids[j as int] == d.id@);
            }
            if str_eq(deps[k].id.as_str(), d.id.as_str()) {
                repeat = true;
            }
            k = k + 1;
        }
        let step: Option<AppError> = if repeat {
            Some(AppError::bad_request(crate::text::concat("Dependencies must be distinct and cannot reference this", " task.").as_str()))
        } else if !d.exists {
            Some(AppError::bad_request("Every dependency must identify a task in this project."))
        } else if d.creates_cycle {
            Some(AppError::conflict("dependency_cycle", "This dependency would create a cycle."))
        } else {
            None
        };
        if let Some(e) = step {
            proof {
                assert(dependency_step_error(task_id@, deps@, (j + 1) as nat) == Some(e@));
                lemma_dependency_error_stable(task_id@, deps@, (j + 1) as nat, deps.len() as nat);
            }
            return Err(e);
        }
        j = j + 1;
    }
    Ok(())
}

/// Whether the project lets agents take a lifecycle action: cancel when agents may edit
/// rules, unblock when recovery is delegated to agents, nothing else.
pub open spec fn lifecycle_delegated(action: Seq<char>, agent_rule_editing: bool, recovery_mode: Seq<char>) -> bool {
    if action == "cancel"@ {
        agent_rule_editing
    } else if action == "unblock"@ {
        recovery_mode == "agent"@
    } else {
        false
    }
}

pub open spec fn lifecycle_actor_error(
    actor: Actor,
    action: Seq<char>,
    agent_rule_editing: bool,
    recovery_mode: Seq<char>,
) -> Option<ErrorView> {
    if actor.kind@ == "human"@ {
        None
    } else if !lifecycle_delegated(action, agent_rule_editing, recovery_mode) {
        Some(
            human_gate_view(
                "task_"@ + action,
                ("This project has not delegated this"@ + " task lifecycle action to agents."@),
            ),
        )
    } else if actor.session_id is None {
        Some(forbidden_view("Connect a harness session before claiming or changing owned work."@))
    } else {
        None
    }
}

/// A human may take any lifecycle action; an agent only a delegated one, through a session.
pub fn check_lifecycle_actor(actor: &Actor, action: &str, agent_rule_editing: bool, recovery_mode: &str) -> (r:
    Result<(), AppError>)
    ensures
        match lifecycle_actor_error(*actor, action@, agent_rule_editing, recovery_mode@) {
            None => r is Ok,
            Some(v) => (r matches Err(e) && e@ == v),
        },
{
    if str_eq(actor.kind.as_str(), "human") {
        return Ok(());
    }
    let delegated = if str_eq(action, "cancel") {
        agent_rule_editing
    } else if str_eq(action, "unblock") {
        str_eq(recovery_mode, "agent")
    } else {
        false
    };
    if !delegated {
        let mut gate = "task_".to_owned();
        gate.append(action);
        return Err(
            AppError::human_gate(
                gate.as_str(),
                crate::text::concat("This project has not delegated this", " task lifecycle action to agents.").as_str(),
            ),
        );
    }
    session(actor)?;
    Ok(())
}

/// A replacement is named only on cancel, never the task itself, and must be a live
/// (open, planned or done, not archived) task of the project.
pub open spec fn lifecycle_request_error(
    action: Seq<char>,
    task_id: Seq<char>,
    replacement: Option<Seq<char>>,
    replacement_live: bool,
) -> Option<ErrorView> {
    if action != "cancel"@ && replacement is Some {
        Some(bad_request_view("replacement_task_id applies only to cancel."@))
    } else if replacement == Some(task_id) {
        Some(bad_request_view("A task cannot replace itself."@))
    } else if replacement is Some && !replacement_live {
        Some(
            bad_request_view(
                "replacement_task_id must name a live (open, planned or done) task in this project."@,
            ),
        )
    } else {
        None
    }
}

pub fn check_lifecycle_request(
    action: &str,
    task_id: &str,
    replacement: Option<&str>,
    replacement_live: bool,
) -> (r: Result<(), AppError>)
    ensures
        match lifecycle_request_error(
            action@,
            task_id@,
            match replacement {
                Some(t) => Some(t@),
                None => None,
            },
            replacement_live,
        ) {
            None => r is Ok,
            Some(v) => (r matches Err(e) && e@ == v),
        },
{
    match replacement {
        None => Ok(()),
        Some(t) => {
            if !str_eq(action, "cancel") {
                return Err(AppError::bad_request("replacement_task_id applies only to cancel."));
            }
            if str_eq(t, task_id) {
                return Err(AppError::bad_request("A task cannot replace itself."));
            }
            if !replacement_live {
                return Err(
                    AppError::bad_request(
                        "replacement_task_id must name a live (open, planned or done) task in this project.",
                    ),
                );
            }
            Ok(())
        },
    }
}

/// What the project holds for a task whose lifecycle is to change.
pub struct LifecycleFacts {
    pub lifecycle: String,
    pub revision: i64,
    pub has_attempt: bool,
    pub archived: bool,
    pub deleted: bool,
    /// Queued, active or recovering review or integration work on the task, or a workflow
    /// activity it stands for.
    pub workflow_links: i64,
    /// Attempts, dependency or objective links and workflow subjects of the task.
    pub history_links: i64,
}

/// The event a permitted lifecycle action records.
pub open spec fn lifecycle_event(action: Seq<char>) -> Seq<char> {
    if action == "archive"@ {
        "task.archived"@
    } else if action == "restore"@ {
        "task.restored"@
    } else if action == "cancel"@ {
        "task.canceled"@
    } else {
        "task.deleted"@
    }
}

/// Whether the task's state permits the action: archive an unarchived task, restore an
/// archived one, cancel an open or planned one, delete a planned or canceled one.
pub open spec fn lifecycle_permits(action: Seq<char>, f: LifecycleFacts) -> bool {
    (action == "archive"@ && !f.archived) || (action == "restore"@ && f.archived) || (action
        == "cancel"@ && (f.lifecycle@ == "open"@ || f.lifecycle@ == "planned"@)) || (action
        == "delete"@ && (f.lifecycle@ == "planned"@ || f.lifecycle@ == "canceled"@))
}

pub open spec fn known_lifecycle_action(action: Seq<char>) -> bool {
    action == "archive"@ || action == "restore"@ || action == "cancel"@ || action == "delete"@
}

pub open spec fn lifecycle_outcome(action: Seq<char>, expected_revision: i64, f: LifecycleFacts) -> Result<
    Seq<char>,
    ErrorView,
> {
    if f.deleted {
        Err(crate::error::not_found_view())
    } else if f.archived && action != "restore"@ {
        Err(conflict_view("task_archived"@, ("Restore this"@ + " task before changing its lifecycle."@)))
    } else if f.revision != expected_revision {
        Err(
            conflict_view(
                "task_revision_changed"@,
                "The task changed. Reload it before applying this lifecycle action."@,
            ),
        )
    } else if f.has_attempt {
        Err(
            conflict_view(
                "task_attempt_protected"@,
                "Release or resolve the current attempt before changing task lifecycle."@,
            ),
        )
    } else if f.workflow_links > 0 {
        Err(
            conflict_view(
                "task_workflow_protected"@,
                "Resolve active review or integration work before changing task lifecycle."@,
            ),
        )
    } else if lifecycle_permits(action, f) {
        if action == "delete"@ && f.history_links > 0 {
            Err(
                conflict_view(
                    "task_history_protected"@,
                    ("This"@ + " task has history or workflow links. Archive it to retain its records."@),
                ),
            )
        } else {
            Ok(lifecycle_event(action))
        }
    } else if known_lifecycle_action(action) && action != "delete"@ {
        Err(
            conflict_view(
                "task_lifecycle_invalid"@,
                ("This"@ + " task is not in a lifecycle state that permits this action."@),
            ),
        )
    } else {
        Err(bad_request_view("Unknown task lifecycle action."@))
    }
}

/// A lifecycle change goes through only on a live task at the expected revision with no
/// current attempt and no active review or integration work: with such work present,
/// every action on an otherwise changeable task is refused as workflow-protected. A
/// delete also needs a task without history links.
pub proof fn law_lifecycle_changes_need_a_quiet_task(
    action: Seq<char>,
    expected_revision: i64,
    f: LifecycleFacts,
)
    ensures
        lifecycle_outcome(action, expected_revision, f) is Ok ==> {
            &&& !f.deleted
            &&& f.revision == expected_revision
            &&& !f.has_attempt
            &&& f.workflow_links <= 0
            &&& (f.archived ==> action == "restore"@)
            &&& (action == "delete"@ ==> f.history_links <= 0)
        },
        lifecycle_outcome(action, expected_revision, f) matches Ok(event) ==> {
            ||| action == "archive"@ && !f.archived && event == "task.archived"@
            ||| action == "restore"@ && f.archived && event == "task.restored"@
            ||| action == "cancel"@ && (f.lifecycle@ == "open"@ || f.lifecycle@ == "planned"@)
                && event == "task.canceled"@
            ||| action == "delete"@ && (f.lifecycle@ == "planned"@ || f.lifecycle@ == "canceled"@)
                && event == "task.deleted"@
        },
        !f.deleted && !(f.archived && action != "restore"@) && f.revision == expected_revision
            && !f.has_attempt && f.workflow_links > 0 ==> lifecycle_outcome(
            action,
            expected_revision,
            f,
        ) == Err::<Seq<char>, ErrorView>(
            conflict_view(
                "task_workflow_protected"@,
                "Resolve active review or integration work before changing task lifecycle."@,
            ),
        ),
{
    reveal_strlit("archive");
    reveal_strlit("restore");
    reveal_strlit("cancel");
    reveal_strlit("delete");
    assert("archive"@[0] == 'a');
    assert("restore"@[0] == 'r');
    assert("cancel"@[0] == 'c');
    assert("delete"@[0] == 'd');
}

/// Decides a lifecycle action (`archive`, `restore`, `cancel` or `delete`) and gives the
/// event it records.
pub fn lifecycle_transition(action: &str, expected_revision: i64, f: &LifecycleFacts) -> (r: Result<
    &'static str,
    AppError,
>)
    ensures
        match lifecycle_outcome(action@, expected_revision, *f) {
            Ok(event) => (r matches Ok(x) && x@ == event),
            Err(v) => (r matches Err(e) && e@ == v),
        },
{
    proof {
        reveal_strlit("archive");
        reveal_strlit("restore");
        reveal_strlit("cancel");
        reveal_strlit("delete");
        assert("archive"@[0] != "delete"@[0]);
        assert("restore"@[0] != "delete"@[0]);
        assert("cancel"@[0] != "delete"@[0]);
    }
    if f.deleted {
        return Err(AppError::not_found());
    }
    let restore = str_eq(action, "restore");
    if f.archived && !restore {
        return Err(AppError::conflict("task_archived", crate::text::concat("Restore this", " task before changing its lifecycle.").as_str()));
    }
    if f.revision != expected_revision {
        return Err(
            AppError::conflict(
                "task_revision_changed",
                "The task changed. Reload it before applying this lifecycle action.",
            ),
        );
    }
    if f.has_attempt {
        return Err(
            AppError::conflict(
                "task_attempt_protected",
                "Release or resolve the current attempt before changing task lifecycle.",
            ),
        );
    }
    if f.workflow_links > 0 {
        return Err(
            AppError::conflict(
                "task_workflow_protected",
                "Resolve active review or integration work before changing task lifecycle.",
            ),
        );
    }
    let lifecycle = f.lifecycle.as_str();
    let archive = str_eq(action, "archive");
    let cancel = str_eq(action, "cancel");
    let delete = str_eq(action, "delete");
    if archive && !f.archived {
        return Ok("task.archived");
    }
    if restore && f.archived {
        return Ok("task.restored");
    }
    if cancel && (str_eq(lifecycle, "open") || str_eq(lifecycle, "planned")) {
        return Ok("task.canceled");
    }
    if delete && (str_eq(lifecycle, "planned") || str_eq(lifecycle, "canceled")) {
        if f.history_links > 0 {
            return Err(
                AppError::conflict(
                    "task_history_protected",
                    crate::text::concat("This", " task has history or workflow links. Archive it to retain its records.").as_str(),
                ),
            );
        }
        return Ok("task.deleted");
    }
    if archive || restore || cancel {
        return Err(
            AppError::conflict(
                "task_lifecycle_invalid",
                crate::text::concat("This", " task is not in a lifecycle state that permits this action.").as_str(),
            ),
        );
    }
    Err(AppError::bad_request("Unknown task lifecycle action."))
}

/// The lifecycle a task shows after a permitted action.
pub open spec fn lifecycle_after(action: Seq<char>, lifecycle: Seq<char>) -> Seq<char> {
    if action == "cancel"@ {
        "canceled"@
    } else {
        lifecycle
    }
}

pub fn resulting_lifecycle(action: &str, lifecycle: &str) -> (r: String)
    ensures
        r@ == lifecycle_after(action@, lifecycle@),
{
    if str_eq(action, "cancel") {
        "canceled".to_owned()
    } else {
        lifecycle.to_owned()
    }
}

/// Unblocking needs the current revision of an open task that no attempt holds.
pub open spec fn unblock_target_error(
    revision: i64,
    expected_revision: i64,
    has_attempt: bool,
    lifecycle: Seq<char>,
) -> Option<ErrorView> {
    if revision != expected_revision {
        Some(conflict_view("revision_conflict"@, ("Refresh this"@ + " task first."@)))
    } else if has_attempt || lifecycle != "open"@ {
        Some(
            conflict_view(
                "task_not_editable"@,
                "An active or expired attempt requires its recovery workflow."@,
            ),
        )
    } else {
        None
    }
}

pub fn check_unblock_target(revision: i64, expected_revision: i64, has_attempt: bool, lifecycle: &str) -> (r:
    Result<(), AppError>)
    ensures
        match unblock_target_error(revision, expected_revision, has_attempt, lifecycle@) {
            None => r is Ok,
            Some(v) => (r matches Err(e) && e@ == v),
        },
{
    if revision != expected_revision {
        return Err(AppError::conflict("revision_conflict", crate::text::concat("Refresh this", " task first.").as_str()));
    }
    if has_attempt || !str_eq(lifecycle, "open") {
        return Err(
            AppError::conflict(
                "task_not_editable",
                "An active or expired attempt requires its recovery workflow.",
            ),
        );
    }
    Ok(())
}

/// One reason a task cannot be claimed now.
pub struct Precondition {
    pub code: String,
    pub message: String,
}

pub open spec fn precondition_views(v: Seq<Precondition>) -> Seq<(Seq<char>, Seq<char>)> {
    v.map_values(|p: Precondition| (p.code@, p.message@))
}

pub open spec fn item_if(cond: bool, code: Seq<char>, message: Seq<char>) -> Seq<(Seq<char>, Seq<char>)> {
    if cond {
        seq![(code, message)]
    } else {
        seq![]
    }
}

pub open spec fn in_review_flow(t: TaskState) -> bool {
    t.is_workflow_activity || (t.workflow_phase matches Some(p) && (p@ == "review"@ || p@
        == "integration"@))
}

/// The reasons a task lists, in order: not open, archived, blocked (with its reason),
/// prerequisites, required objective children, scoped decisions, the current attempt
/// (live owner or recovery), and review or integration flow.
pub open spec fn precondition_list(
    t: TaskState,
    archived: bool,
    blocked_reason: Option<Seq<char>>,
    now: i64,
) -> Seq<(Seq<char>, Seq<char>)> {
    item_if(t.lifecycle@ != "open"@, "task_not_open"@, "Task lifecycle is "@ + t.lifecycle@ + "."@)
        + item_if(archived, "task_archived"@, ("Restore this"@ + " task before claiming work."@))
        + match blocked_reason {
        Some(r) => seq![("task_blocked"@, r)],
        None => seq![],
    } + item_if(
        !t.dependencies_ready,
        "dependencies_incomplete"@,
        ("Complete every prerequisite task before claiming this"@ + " task."@),
    ) + item_if(
        !t.objective_children_ready,
        "required_objective_children_incomplete"@,
        ("Complete the required child tasks before claiming this"@ + " task."@),
    ) + item_if(
        !t.decisions_ready,
        "scoped_decisions_pending"@,
        ("Resolve current scoped decisions for this"@ + " task or workflow activity."@),
    ) + (if t.has_current_attempt {
        if live_owner(t, now) {
            seq![("active_owner"@, ("A live authorized attempt currently owns this"@ + " task."@))]
        } else {
            seq![
                (
                    "recovery_inspection_required"@,
                    "Inspect the expired or unauthorized attempt and its jobs through the recovery workflow before resuming."@,
                ),
            ]
        }
    } else {
        seq![]
    }) + item_if(
        in_review_flow(t),
        "workflow_activity_required"@,
        "Review or integration work must be claimed through its linked workflow activity."@,
    )
}

fn push_item(v: &mut Vec<Precondition>, code: &str, message: String)
    ensures
        precondition_views(final(v)@) == precondition_views(old(v)@) + seq![(code@, message@)],
{
    v.push(Precondition { code: code.to_owned(), message });
    proof {
        assert(precondition_views(final(v)@) =~= precondition_views(old(v)@) + seq![(code@, message@)]);
    }
}

fn push_if(v: &mut Vec<Precondition>, cond: bool, code: &str, message: &str)
    ensures
        precondition_views(final(v)@) == precondition_views(old(v)@) + item_if(cond, code@, message@),
{
    if cond {
        push_item(v, code, message.to_owned());
    } else {
        assert(precondition_views(old(v)@) + item_if(cond, code@, message@) =~= precondition_views(old(v)@));
    }
}

/// What a task lists as standing between it and a claim.
pub struct TaskPreconditions {
    pub items: Vec<Precondition>,
    /// An integration candidate needs a local preflight the service cannot make.
    pub integration_preflight: bool,
}

pub fn preconditions(t: &TaskState, archived: bool, blocked_reason: Option<&str>, now: i64) -> (r:
    TaskPreconditions)
    ensures
        precondition_views(r.items@) == precondition_list(
            *t,
            archived,
            match blocked_reason {
                Some(b) => Some(b@),
                None => None,
            },
            now,
        ),
        r.integration_preflight == (t.workflow_phase matches Some(p) && p@ == "integration"@),
{
    let ghost reason = match blocked_reason {
        Some(b) => Some(b@),
        None => None::<Seq<char>>,
    };
    let mut v: Vec<Precondition> = Vec::new();
    let open = str_eq(t.lifecycle.as_str(), "open");
    let mut m = "Task lifecycle is ".to_owned();
    m.append(t.lifecycle.as_str());
    m.append(".");
    if !open {
        push_item(&mut v, "task_not_open", m);
    }
    assert(precondition_views(v@) =~= item_if(t.lifecycle@ != "open"@, "task_not_open"@, "Task lifecycle is "@ + t.lifecycle@ + "."@));
    push_if(&mut v, archived, "task_archived", crate::text::concat("Restore this", " task before claiming work.").as_str());
    let ghost b = precondition_views(v@);
    match blocked_reason {
        Some(r) => push_item(&mut v, "task_blocked", r.to_owned()),
        None => {},
    }
    let ghost c = precondition_views(v@);
    assert(c =~= b + match reason {
        Some(r) => seq![("task_blocked"@, r)],
        None => seq![],
    });
    push_if(
        &mut v,
        !t.dependencies_ready,
        "dependencies_incomplete",
        crate::text::concat("Complete every prerequisite task before claiming this", " task.").as_str(),
    );
    push_if(
        &mut v,
        !t.objective_children_ready,
        "required_objective_children_incomplete",
        crate::text::concat("Complete the required child tasks before claiming this", " task.").as_str(),
    );
    push_if(
        &mut v,
        !t.decisions_ready,
        "scoped_decisions_pending",
        crate::text::concat("Resolve current scoped decisions for this", " task or workflow activity.").as_str(),
    );
    if t.has_current_attempt {
        let active = match &t.attempt_state {
            Some(s) => str_eq(s.as_str(), "active"),
            None => false,
        };
        let unexpired = match t.attempt_expires {
            Some(x) => x > now,
            None => false,
        };
        if active && unexpired && t.owner_authorized {
            push_item(&mut v, "active_owner", crate::text::concat("A live authorized attempt currently owns this", " task."));
        } else {
            push_item(
                &mut v,
                "recovery_inspection_required",
                "Inspect the expired or unauthorized attempt and its jobs through the recovery workflow before resuming.".to_owned(),
            );
        }
    }
    let (review, integration) = match &t.workflow_phase {
        Some(p) => (str_eq(p.as_str(), "review"), str_eq(p.as_str(), "integration")),
        None => (false, false),
    };
    push_if(
        &mut v,
        t.is_workflow_activity || review || integration,
        "workflow_activity_required",
        "Review or integration work must be claimed through its linked workflow activity.",
    );
    proof {
        let l = precondition_list(*t, archived, reason, now);
        assert(precondition_views(v@) =~= l);
    }
    TaskPreconditions { items: v, integration_preflight: integration }
}

/// The lifecycles a task can have.
pub open spec fn valid_lifecycle(l: Seq<char>) -> bool {
    l == "open"@ || l == "planned"@ || l == "done"@ || l == "canceled"@
}

/// A task that shows `ready`, outside any workflow status of its own, is neither archived
/// nor blocked, lists nothing that stands between it and a claim.
pub proof fn law_ready_tasks_list_no_preconditions(t: TaskState, now: i64)
    requires
        valid_lifecycle(t.lifecycle@),
        task_status(t, now) == "ready"@,
        t.workflow_status is None,
    ensures
        precondition_list(t, false, None, now) == Seq::<(Seq<char>, Seq<char>)>::empty(),
{
    reveal_strlit("ready");
    reveal_strlit("open");
    reveal_strlit("in_progress");
    reveal_strlit("blocked");
    reveal_strlit("recovery_required");
    reveal_strlit("waiting_review");
    reveal_strlit("waiting_integration");
    reveal_strlit("planned");
    reveal_strlit("done");
    reveal_strlit("canceled");
    assert(t.lifecycle@ == "open"@);
    assert("ready"@.len() == 5 && "blocked"@.len() == 7 && "in_progress"@.len() == 11);
    assert("recovery_required"@.len() == 17 && "waiting_review"@.len() == 14);
    assert("waiting_integration"@.len() == 19);
    assert(!t.has_current_attempt);
    assert(t.decisions_ready && t.objective_children_ready);
    assert(!in_review_flow(t));
    assert(t.dependencies_ready);
    assert(precondition_list(t, false, None, now) =~= Seq::<(Seq<char>, Seq<char>)>::empty());
}

} // verus!
