//! Objectives: bounded descriptions, distinct children, and when membership may change.
use vstd::prelude::*;

use crate::error::{bad_request_view, conflict_view, AppError, Detail, DetailValueView, ErrorView};
use crate::text::str_eq;
use crate::validation::{bounded_message, bounded_ok, check_bounded, strings};

verus! {

/// Objective text: at most `max` bytes, no NUL, nonempty when required.
pub fn bounded(value: &str, name: &str, max: usize, required: bool) -> (r: Result<(), AppError>)
    ensures
        r is Ok <==> bounded_ok(value@, max as nat, required),
        r matches Err(e) ==> e@ == bad_request_view(bounded_message(name@, max as nat, required)),
{
    check_bounded(value, name, max, required)
}

/// A task named as an objective child.
pub struct ObjectiveChildInput {
    pub task_id: String,
    pub required: bool,
}

/// The first rule broken by the first `n` children: bounded ids, no id twice.
pub open spec fn children_prefix_error(children: Seq<ObjectiveChildInput>, n: nat) -> Option<ErrorView>
    decreases n,
{
    if n == 0 {
        None
    } else {
        let prev = children_prefix_error(children, (n - 1) as nat);
        let c = children[n - 1];
        if prev is Some {
            prev
        } else if !bounded_ok(c.task_id@, 128, true) {
            Some(bad_request_view(bounded_message("child task ID"@, 128, true)))
        } else if exists|i: int| 0 <= i < n - 1 && #[trigger] children[i].task_id@ == c.task_id@ {
            Some(bad_request_view("Objective child task IDs must be distinct."@))
        } else {
            None
        }
    }
}

pub open spec fn children_error(children: Seq<ObjectiveChildInput>) -> Option<ErrorView> {
    if children.len() > 100 {
        Some(bad_request_view("An objective may contain at most 100 direct children."@))
    } else {
        children_prefix_error(children, children.len())
    }
}

proof fn lemma_children_error_stable(children: Seq<ObjectiveChildInput>, a: nat, b: nat)
    requires
        a <= b,
        children_prefix_error(children, a) is Some,
    ensures
        children_prefix_error(children, b) == children_prefix_error(children, a),
    decreases b - a,
{
    if a < b {
        lemma_children_error_stable(children, a, (b - 1) as nat);
    }
}

pub fn validate_child_input(children: &Vec<ObjectiveChildInput>) -> (r: Result<(), AppError>)
    ensures
        match children_error(children@) {
            None => r is Ok,
            Some(v) => (r matches Err(e) && e@ == v),
        },
{
    if children.len() > 100 {
        return Err(AppError::bad_request("An objective may contain at most 100 direct children."));
    }
    let mut j: usize = 0;
    while j < children.len()
        invariant
            j <= children.len() <= 100,
            children_prefix_error(children@, j as nat) is None,
        decreases children.len() - j,
    {
        let child = &children[j];
        let checked = check_bounded(child.task_id.as_str(), "child task ID", 128, true);
        if checked.is_err() {
            proof {
                assert(children_prefix_error(children@, (j + 1) as nat) == Some(
                    bad_request_view(bounded_message("child task ID"@, 128, true)),
                ));
                lemma_children_error_stable(children@, (j + 1) as nat, children.len() as nat);
            }
            return checked;
        }
        let mut i: usize = 0;
        while i < j
            invariant
                i <= j < children.len(),
                children.len() <= 100,
                child == children@[j as int],
                bounded_ok(child.task_id@, 128, true),
                children_prefix_error(children@, j as nat) is None,
                forall|k: int| 0 <= k < i ==> children@[k].task_id@ != child.task_id@,
            decreases j - i,
        {
            if str_eq(children[i].task_id.as_str(), child.task_id.as_str()) {
                proof {
                    assert(children_prefix_error(children@, (j + 1) as nat) == Some(
                        bad_request_view("Objective child task IDs must be distinct."@),
                    ));
                    lemma_children_error_stable(children@, (j + 1) as nat, children.len() as nat);
                }
                return Err(AppError::bad_request("Objective child task IDs must be distinct."));
            }
            i = i + 1;
        }
        j = j + 1;
    }
    Ok(())
}

/// An objective as submitted.
pub struct ObjectiveInput {
    pub title: String,
    pub description: String,
    pub acceptance_criteria: Vec<String>,
    pub priority: i64,
    pub children: Vec<ObjectiveChildInput>,
}

/// The first criterion among the first `n` that is not bounded required text.
pub open spec fn criteria_error(criteria: Seq<Seq<char>>, n: nat) -> Option<ErrorView>
    decreases n,
{
    if n == 0 {
        None
    } else if criteria_error(criteria, (n - 1) as nat) is Some {
        criteria_error(criteria, (n - 1) as nat)
    } else if !bounded_ok(criteria[n - 1], 2048, true) {
        Some(bad_request_view(bounded_message("acceptance criterion"@, 2048, true)))
    } else {
        None
    }
}

proof fn lemma_criteria_error_stable(criteria: Seq<Seq<char>>, a: nat, b: nat)
    requires
        a <= b,
        criteria_error(criteria, a) is Some,
    ensures
        criteria_error(criteria, b) == criteria_error(criteria, a),
    decreases b - a,
{
    if a < b {
        lemma_criteria_error_stable(criteria, a, (b - 1) as nat);
    }
}

/// The first rule an objective breaks, or `None`.
pub open spec fn objective_error(input: ObjectiveInput) -> Option<ErrorView> {
    let criteria = strings(input.acceptance_criteria@);
    if !bounded_ok(input.title@, 300, true) {
        Some(bad_request_view(bounded_message("title"@, 300, true)))
    } else if !bounded_ok(input.description@, 32768, false) {
        Some(bad_request_view(bounded_message("description"@, 32768, false)))
    } else if criteria.len() == 0 || criteria.len() > 100 {
        Some(bad_request_view("Provide 1–100 acceptance criteria."@))
    } else if criteria_error(criteria, criteria.len()) is Some {
        criteria_error(criteria, criteria.len())
    } else if !(0 <= input.priority <= 3) {
        Some(bad_request_view("priority must be between 0 and 3."@))
    } else {
        children_error(input.children@)
    }
}

pub fn validate_objective(input: &ObjectiveInput) -> (r: Result<(), AppError>)
    ensures
        match objective_error(*input) {
            None => r is Ok,
            Some(v) => (r matches Err(e) && e@ == v),
        },
{
    check_bounded(input.title.as_str(), "title", 300, true)?;
    check_bounded(input.description.as_str(), "description", 32768, false)?;
    let criteria = &input.acceptance_criteria;
    if criteria.len() == 0 || criteria.len() > 100 {
        return Err(AppError::bad_request("Provide 1–100 acceptance criteria."));
    }
    let ghost cs = strings(criteria@);
    let mut j: usize = 0;
    while j < criteria.len()
        invariant
            j <= criteria.len(),
            1 <= criteria.len() <= 100,
            criteria == &input.acceptance_criteria,
            bounded_ok(input.title@, 300, true),
            bounded_ok(input.description@, 32768, false),
            cs == strings(criteria@),
            criteria_error(cs, j as nat) is None,
        decreases criteria.len() - j,
    {
        let checked = check_bounded(criteria[j].as_str(), "acceptance criterion", 2048, true);
        if checked.is_err() {
            proof {
                assert(criteria_error(cs, (j + 1) as nat) == Some(
                    bad_request_view(bounded_message("acceptance criterion"@, 2048, true)),
                ));
                lemma_criteria_error_stable(cs, (j + 1) as nat, criteria.len() as nat);
            }
            return checked;
        }
        j = j + 1;
    }
    if !(0 <= input.priority && input.priority <= 3) {
        return Err(AppError::bad_request("priority must be between 0 and 3."));
    }
    validate_child_input(&input.children)
}

/// What the service knows of one proposed child task.
pub struct ChildFacts {
    /// The task exists in the objective's project.
    pub exists: bool,
    /// The task is an internal review or integration activity.
    pub workflow_activity: bool,
    /// Another objective already holds the task.
    pub other_parent: bool,
    /// The membership would close a cycle through prerequisites or objectives.
    pub creates_cycle: bool,
}

/// Why a task may not become this objective's child, or `None`.
pub open spec fn child_refusal(objective: Seq<char>, task: Seq<char>, f: ChildFacts) -> Option<ErrorView> {
    if task == objective {
        Some(bad_request_view("An objective cannot contain itself."@))
    } else if !f.exists {
        Some(bad_request_view("Every objective child must be a task in the same project."@))
    } else if f.workflow_activity {
        Some(
            bad_request_view(
                "Internal review and integration activities cannot be objective children."@,
            ),
        )
    } else if f.other_parent {
        Some(
            conflict_view(
                "objective_parent_conflict"@,
                "A task can belong to only one parent objective."@,
            ),
        )
    } else if f.creates_cycle {
        Some(
            conflict_view(
                "dependency_cycle"@,
                "This objective membership would create a cycle through task prerequisites or objectives."@,
            ),
        )
    } else {
        None
    }
}

pub fn check_child(objective: &str, task: &str, facts: &ChildFacts) -> (r: Result<(), AppError>)
    ensures
        match child_refusal(objective@, task@, *facts) {
            None => r is Ok,
            Some(v) => (r matches Err(e) && e@ == v),
        },
{
    if str_eq(task, objective) {
        return Err(AppError::bad_request("An objective cannot contain itself."));
    }
    if !facts.exists {
        return Err(
            AppError::bad_request("Every objective child must be a task in the same project."),
        );
    }
    if facts.workflow_activity {
        return Err(
            AppError::bad_request(
                "Internal review and integration activities cannot be objective children.",
            ),
        );
    }
    if facts.other_parent {
        return Err(
            AppError::conflict(
                "objective_parent_conflict",
                "A task can belong to only one parent objective.",
            ),
        );
    }
    if facts.creates_cycle {
        return Err(
            AppError::conflict(
                "dependency_cycle",
                "This objective membership would create a cycle through task prerequisites or objectives.",
            ),
        );
    }
    Ok(())
}

/// The state of an objective when its children are to be replaced.
pub struct ObjectiveState {
    pub revision: i64,
    pub lifecycle: String,
    pub attempted: bool,
    pub submitted: bool,
}

/// Children change only at the revision the caller read, and only before work begins.
pub open spec fn membership_refusal(s: ObjectiveState, expected_revision: i64) -> Option<ErrorView> {
    if s.revision != expected_revision {
        Some(
            conflict_view(
                "revision_conflict"@,
                "Read the current objective revision before changing its children."@,
            ),
        )
    } else if s.attempted || s.submitted || !(s.lifecycle@ == "open"@ || s.lifecycle@
        == "planned"@) {
        Some(
            conflict_view(
                "objective_membership_frozen"@,
                "Objective membership is frozen after its work begins. Preserve the reviewed completion scope."@,
            ),
        )
    } else {
        None
    }
}

pub fn check_membership_change(state: &ObjectiveState, expected_revision: i64) -> (r: Result<
    (),
    AppError,
>)
    ensures
        match membership_refusal(*state, expected_revision) {
            None => r is Ok,
            Some(v) => (r matches Err(e) && e@ == v),
        },
{
    if state.revision != expected_revision {
        return Err(
            AppError::conflict(
                "revision_conflict",
                "Read the current objective revision before changing its children.",
            ),
        );
    }
    let lifecycle = state.lifecycle.as_str();
    if state.attempted || state.submitted || !(str_eq(lifecycle, "open") || str_eq(
        lifecycle,
        "planned",
    )) {
        return Err(
            AppError::conflict(
                "objective_membership_frozen",
                "Objective membership is frozen after its work begins. Preserve the reviewed completion scope.",
            ),
        );
    }
    Ok(())
}

/// A children update: valid children, then a positive expected revision.
pub fn validate_children_update(children: &Vec<ObjectiveChildInput>, expected_revision: i64) -> (r:
    Result<(), AppError>)
    ensures
        match children_error(children@) {
            Some(v) => (r matches Err(e) && e@ == v),
            None => if expected_revision <= 0 {
                (r matches Err(e) && e@ == bad_request_view("expected_revision must be positive."@))
            } else {
                r is Ok
            },
        },
{
    validate_child_input(children)?;
    if expected_revision <= 0 {
        return Err(AppError::bad_request("expected_revision must be positive."));
    }
    Ok(())
}

/// An objective's revision history page: 50 entries by default, 1 to 200, after a
/// positive revision cursor.
pub open spec fn detail_query_result(cursor: Option<i64>, limit: Option<i64>) -> Result<i64, ErrorView> {
    let n = match limit {
        Some(n) => n,
        None => 50,
    };
    if !(1 <= n <= 200) || (cursor matches Some(c) && c <= 0) {
        Err(bad_request_view("History limit must be 1–200 and cursor must be a positive revision."@))
    } else {
        Ok(n)
    }
}

pub fn detail_query_limit(cursor: Option<i64>, limit: Option<i64>) -> (r: Result<i64, AppError>)
    ensures
        match detail_query_result(cursor, limit) {
            Ok(n) => r == Ok::<i64, AppError>(n),
            Err(v) => (r matches Err(e) && e@ == v),
        },
{
    let n = match limit {
        Some(n) => n,
        None => 50,
    };
    let bad_cursor = match cursor {
        Some(c) => c <= 0,
        None => false,
    };
    if !(1 <= n && n <= 200) || bad_cursor {
        return Err(
            AppError::bad_request("History limit must be 1–200 and cursor must be a positive revision."),
        );
    }
    Ok(n)
}

/// How many incomplete required children the refusal names.
pub const SHOWN_CHILDREN: usize = 20;

/// The refusal while required children are incomplete: it names the first twenty of
/// them, in the order given, and says whether more remain.
pub open spec fn children_incomplete_view(ids: Seq<Seq<char>>) -> ErrorView {
    let shown = if ids.len() > SHOWN_CHILDREN {
        ids.take(SHOWN_CHILDREN as int)
    } else {
        ids
    };
    ErrorView {
        details: seq![
            ("task_ids"@, DetailValueView::Texts(shown)),
            ("truncated"@, DetailValueView::Flag(ids.len() > SHOWN_CHILDREN)),
        ],
        ..conflict_view(
            "objective_children_incomplete"@,
            "Complete every required child before starting or completing this objective's own work."@,
        )
    }
}

/// An objective's own work starts or completes only once every required child is done.
/// `incomplete` holds the ids of its required children that are not done, ordered by
/// position and id (the caller reads at most twenty-one of them).
pub fn check_required_children_done(incomplete: &Vec<String>) -> (r: Result<(), AppError>)
    ensures
        r is Ok <==> incomplete.len() == 0,
        r matches Err(e) ==> e@ == children_incomplete_view(strings(incomplete@)),
{
    if incomplete.len() == 0 {
        return Ok(());
    }
    let n = if incomplete.len() > SHOWN_CHILDREN {
        SHOWN_CHILDREN
    } else {
        incomplete.len()
    };
    let mut shown: Vec<String> = Vec::new();
    let mut i: usize = 0;
    while i < n
        invariant
            i <= n <= incomplete.len(),
            strings(shown@) == strings(incomplete@).take(i as int),
        decreases n - i,
    {
        let ghost before = shown@;
        let id = incomplete[i].clone();
        assert(id@ == incomplete@[i as int]@);
        shown.push(id);
        proof {
            assert(strings(shown@) =~= strings(before).push(incomplete@[i as int]@));
            assert(strings(incomplete@).take(i + 1) =~= strings(incomplete@).take(i as int).push(
                incomplete@[i as int]@,
            ));
        }
        i = i + 1;
    }
    proof {
        if incomplete.len() <= SHOWN_CHILDREN {
            assert(strings(incomplete@).take(n as int) =~= strings(incomplete@));
        }
    }
    let mut details = Vec::new();
    details.push(Detail::texts("task_ids", shown));
    details.push(Detail::flag("truncated", incomplete.len() > SHOWN_CHILDREN));
    let e = AppError::conflict(
        "objective_children_incomplete",
        "Complete every required child before starting or completing this objective's own work.",
    ).with_details(details);
    proof {
        assert(e@.details =~= children_incomplete_view(strings(incomplete@)).details);
    }
    Err(e)
}

} // verus!
