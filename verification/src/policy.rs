//! Project policy: review and recovery modes, lease length and rules, who may change them,
//! and the policy an accepted change leaves.
use vstd::prelude::*;

use crate::error::{bad_request_view, conflict_view, human_gate_view, AppError, ErrorView};
use crate::text::str_eq;
use crate::validation::{bounded_message, bounded_ok, check_bounded};

verus! {

/// A requested policy.
pub struct PolicyInput {
    pub review_mode: String,
    pub recovery_mode: String,
    pub lease_seconds: i64,
    pub rules: String,
    pub provenance: String,
    pub agent_rule_editing: bool,
    pub automatic_integration: bool,
    pub allow_subagent_reviews: Option<bool>,
    pub expected_revision: i64,
}

/// A project's policy as stored.
pub struct ProjectPolicy {
    pub review_mode: String,
    pub recovery_mode: String,
    pub lease_seconds: i64,
    pub rules: String,
    pub agent_rule_editing: bool,
    pub automatic_integration: bool,
    pub allow_subagent_reviews: bool,
    pub policy_revision: i64,
}

pub open spec fn review_mode_ok(m: Seq<char>) -> bool {
    m == "none"@ || m == "agent"@ || m == "human"@ || m == "both"@ || m == "either"@
}

pub open spec fn recovery_mode_ok(m: Seq<char>) -> bool {
    m == "agent"@ || m == "manual"@
}

/// Review mode none, agent, human, both or either; recovery agent or manual; a lease of 30
/// to 3600 seconds; rules of at most 32768 bytes and provenance of at most 4096.
pub open spec fn policy_input_error(input: PolicyInput) -> Option<ErrorView> {
    if !review_mode_ok(input.review_mode@) || !recovery_mode_ok(input.recovery_mode@) || !(30
        <= input.lease_seconds <= 3600) {
        Some(bad_request_view("Invalid review/recovery mode or lease_seconds (30–3600)."@))
    } else if !bounded_ok(input.rules@, 32768, false) {
        Some(bad_request_view(bounded_message("rules"@, 32768, false)))
    } else if !bounded_ok(input.provenance@, 4096, false) {
        Some(bad_request_view(bounded_message("policy provenance"@, 4096, false)))
    } else {
        None
    }
}

pub fn validate_policy_input(input: &PolicyInput) -> (r: Result<(), AppError>)
    ensures
        match policy_input_error(*input) {
            None => r is Ok,
            Some(v) => (r matches Err(e) && e@ == v),
        },
{
    let review = input.review_mode.as_str();
    let recovery = input.recovery_mode.as_str();
    let review_ok = str_eq(review, "none") || str_eq(review, "agent") || str_eq(review, "human")
        || str_eq(review, "both") || str_eq(review, "either");
    let recovery_ok = str_eq(recovery, "agent") || str_eq(recovery, "manual");
    if !review_ok || !recovery_ok || !(30 <= input.lease_seconds && input.lease_seconds <= 3600) {
        return Err(
            AppError::bad_request("Invalid review/recovery mode or lease_seconds (30–3600)."),
        );
    }
    check_bounded(input.rules.as_str(), "rules", 32768, false)?;
    check_bounded(input.provenance.as_str(), "policy provenance", 4096, false)
}

/// An agent may change a policy only where the project lets agents edit rules, and then
/// leaves rule editing, automatic integration, both modes and subagent reviews as they are.
pub open spec fn agent_change_allowed(current: ProjectPolicy, input: PolicyInput) -> bool {
    current.agent_rule_editing && current.agent_rule_editing == input.agent_rule_editing
        && current.automatic_integration == input.automatic_integration && current.review_mode@
        == input.review_mode@ && current.recovery_mode@ == input.recovery_mode@ && !(
    input.allow_subagent_reviews matches Some(v) && v != current.allow_subagent_reviews)
}

pub open spec fn permission_gate_view() -> ErrorView {
    human_gate_view(
        "policy_permission_change"@,
        "This project has not delegated this rule change. Agents cannot alter permission grants, review mode or recovery mode."@,
    )
}

pub fn check_policy_permission(actor_kind: &str, current: &ProjectPolicy, input: &PolicyInput) -> (r:
    Result<(), AppError>)
    ensures
        r is Ok <==> (actor_kind@ != "agent"@ || agent_change_allowed(*current, *input)),
        r matches Err(e) ==> e@ == permission_gate_view(),
{
    if !str_eq(actor_kind, "agent") {
        return Ok(());
    }
    let subagents_changed = match input.allow_subagent_reviews {
        Some(v) => v != current.allow_subagent_reviews,
        None => false,
    };
    if !current.agent_rule_editing || current.agent_rule_editing != input.agent_rule_editing
        || current.automatic_integration != input.automatic_integration || !str_eq(
        current.review_mode.as_str(),
        input.review_mode.as_str(),
    ) || !str_eq(current.recovery_mode.as_str(), input.recovery_mode.as_str())
        || subagents_changed {
        return Err(
            AppError::human_gate(
                "policy_permission_change",
                "This project has not delegated this rule change. Agents cannot alter permission grants, review mode or recovery mode.",
            ),
        );
    }
    Ok(())
}

/// A change names the current policy revision, and waits while an integration is held.
pub open spec fn policy_revision_error(current_revision: i64, expected_revision: i64, held: i64) -> Option<
    ErrorView,
> {
    if current_revision != expected_revision {
        Some(
            conflict_view(
                "revision_conflict"@,
                "Read the current project policy before editing it."@,
            ),
        )
    } else if held > 0 {
        Some(
            conflict_view(
                "policy_hold_conflict"@,
                "Finish or reconcile the held integration before changing its policy. Publication may already be in progress."@,
            ),
        )
    } else {
        None
    }
}

pub fn check_policy_revision(current_revision: i64, expected_revision: i64, held: i64) -> (r: Result<
    (),
    AppError,
>)
    ensures
        match policy_revision_error(current_revision, expected_revision, held) {
            None => r is Ok,
            Some(v) => (r matches Err(e) && e@ == v),
        },
{
    if current_revision != expected_revision {
        return Err(
            AppError::conflict("revision_conflict", "Read the current project policy before editing it."),
        );
    }
    if held > 0 {
        return Err(
            AppError::conflict(
                "policy_hold_conflict",
                "Finish or reconcile the held integration before changing its policy. Publication may already be in progress.",
            ),
        );
    }
    Ok(())
}

/// The policy an accepted change stores: the requested values, subagent reviews kept when
/// not named, and the next revision.
pub open spec fn policy_after(current: ProjectPolicy, input: PolicyInput) -> ProjectPolicy {
    ProjectPolicy {
        review_mode: input.review_mode,
        recovery_mode: input.recovery_mode,
        lease_seconds: input.lease_seconds,
        rules: input.rules,
        agent_rule_editing: input.agent_rule_editing,
        automatic_integration: input.automatic_integration,
        allow_subagent_reviews: match input.allow_subagent_reviews {
            Some(v) => v,
            None => current.allow_subagent_reviews,
        },
        policy_revision: (current.policy_revision + 1) as i64,
    }
}

pub fn updated_policy(current: &ProjectPolicy, input: &PolicyInput) -> (r: ProjectPolicy)
    requires
        current.policy_revision < i64::MAX,
    ensures
        r.review_mode@ == policy_after(*current, *input).review_mode@,
        r.recovery_mode@ == policy_after(*current, *input).recovery_mode@,
        r.rules@ == policy_after(*current, *input).rules@,
        r.lease_seconds == policy_after(*current, *input).lease_seconds,
        r.agent_rule_editing == policy_after(*current, *input).agent_rule_editing,
        r.automatic_integration == policy_after(*current, *input).automatic_integration,
        r.allow_subagent_reviews == policy_after(*current, *input).allow_subagent_reviews,
        r.policy_revision == policy_after(*current, *input).policy_revision,
{
    ProjectPolicy {
        review_mode: input.review_mode.clone(),
        recovery_mode: input.recovery_mode.clone(),
        lease_seconds: input.lease_seconds,
        rules: input.rules.clone(),
        agent_rule_editing: input.agent_rule_editing,
        automatic_integration: input.automatic_integration,
        allow_subagent_reviews: match input.allow_subagent_reviews {
            Some(v) => v,
            None => current.allow_subagent_reviews,
        },
        policy_revision: current.policy_revision + 1,
    }
}

/// Agents cannot alter permission grants, review mode or recovery mode: a change an agent
/// is allowed to make leaves rule editing, automatic integration, both modes and subagent
/// reviews as they were.
pub proof fn law_agent_changes_keep_permissions(current: ProjectPolicy, input: PolicyInput)
    requires
        agent_change_allowed(current, input),
    ensures
        policy_after(current, input).agent_rule_editing == current.agent_rule_editing,
        policy_after(current, input).automatic_integration == current.automatic_integration,
        policy_after(current, input).review_mode@ == current.review_mode@,
        policy_after(current, input).recovery_mode@ == current.recovery_mode@,
        policy_after(current, input).allow_subagent_reviews == current.allow_subagent_reviews,
{
}

} // verus!
