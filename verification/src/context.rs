//! The working context an agent asks for: the query's bounds, and how pending decisions,
//! matching tasks and knowledge are packed behind the project's mandatory policy within a
//! byte budget and an item limit.
use vstd::prelude::*;

use crate::error::{bad_request_view, AppError, ErrorView};
use crate::knowledge::{fts_query, fts_query_result};
use crate::validation::{bounded_message, bounded_ok, check_bounded};

verus! {

/// A context request.
pub struct ContextQuery {
    pub q: String,
    pub limit: Option<i64>,
    pub budget: Option<usize>,
    pub include_shared: bool,
    pub task_id: Option<String>,
    pub component: Option<String>,
    pub environment: Option<String>,
    pub version: Option<String>,
}

/// What a valid query settles: the item limit, the byte budget and the full-text query.
pub struct ContextBounds {
    pub limit: i64,
    pub budget: usize,
    pub fts: String,
}

pub open spec fn optional_filter_error(v: Option<String>, name: Seq<char>) -> Option<ErrorView> {
    match v {
        Some(s) => if bounded_ok(s@, 255, true) {
            None
        } else {
            Some(bad_request_view(bounded_message(name, 255, true)))
        },
        None => None,
    }
}

/// 20 items and 32768 bytes by default; 1 to 100 items and 1024 to 131072 bytes; a valid
/// search text; each filter given bounded required text of at most 255 bytes.
pub open spec fn context_query_result(q: ContextQuery) -> Result<(i64, usize, Seq<char>), ErrorView> {
    let limit = match q.limit {
        Some(n) => n,
        None => 20,
    };
    let budget = match q.budget {
        Some(n) => n,
        None => 32768,
    };
    if !(1 <= limit <= 100) || !(1024 <= budget <= 131072) {
        Err(bad_request_view("Context limit must be 1–100 and budget must be 1024–131072 bytes."@))
    } else if fts_query_result(q.q@) is Err {
        Err(fts_query_result(q.q@)->Err_0)
    } else if optional_filter_error(q.task_id, "task_id"@) is Some {
        Err(optional_filter_error(q.task_id, "task_id"@)->Some_0)
    } else if optional_filter_error(q.component, "component"@) is Some {
        Err(optional_filter_error(q.component, "component"@)->Some_0)
    } else if optional_filter_error(q.environment, "environment"@) is Some {
        Err(optional_filter_error(q.environment, "environment"@)->Some_0)
    } else if optional_filter_error(q.version, "version"@) is Some {
        Err(optional_filter_error(q.version, "version"@)->Some_0)
    } else {
        Ok((limit, budget, fts_query_result(q.q@)->Ok_0))
    }
}

fn check_filter(v: &Option<String>, name: &str) -> (r: Result<(), AppError>)
    ensures
        match optional_filter_error(*v, name@) {
            None => r is Ok,
            Some(x) => (r matches Err(e) && e@ == x),
        },
{
    match v {
        Some(s) => check_bounded(s.as_str(), name, 255, true),
        None => Ok(()),
    }
}

pub fn validate_context_query(q: &ContextQuery) -> (r: Result<ContextBounds, AppError>)
    ensures
        match context_query_result(*q) {
            Ok(t) => (r matches Ok(b) && b.limit == t.0 && b.budget == t.1 && b.fts@ == t.2),
            Err(v) => (r matches Err(e) && e@ == v),
        },
{
    let limit = match q.limit {
        Some(n) => n,
        None => 20,
    };
    let budget = match q.budget {
        Some(n) => n,
        None => 32768,
    };
    if !(1 <= limit && limit <= 100) || !(1024 <= budget && budget <= 131072) {
        return Err(
            AppError::bad_request("Context limit must be 1–100 and budget must be 1024–131072 bytes."),
        );
    }
    let fts = fts_query(q.q.as_str())?;
    check_filter(&q.task_id, "task_id")?;
    check_filter(&q.component, "component")?;
    check_filter(&q.environment, "environment")?;
    check_filter(&q.version, "version")?;
    Ok(ContextBounds { limit, budget, fts })
}

/// The context packed so far: bytes used (the mandatory policy first), items taken,
/// whether anything was left out, and whether the mandatory policy fit at all.
#[derive(Clone, Copy)]
pub struct ContextPack {
    pub used: usize,
    pub count: usize,
    pub truncated: bool,
    pub complete: bool,
}

/// Once the policy fits, the packed bytes never pass the budget nor the items the limit.
pub open spec fn pack_within(p: ContextPack, limit: int, budget: int) -> bool {
    p.complete ==> p.used <= budget && p.count <= limit
}

/// Whether the next candidate of `size` bytes is taken: only when the policy fit, an item
/// slot is free and its bytes fit the budget.
pub open spec fn takes(p: ContextPack, size: int, limit: int, budget: int) -> bool {
    p.complete && p.count < limit && p.used + size <= budget
}

pub open spec fn after_offer(p: ContextPack, size: int, limit: int, budget: int) -> ContextPack {
    if takes(p, size, limit, budget) {
        ContextPack { used: (p.used + size) as usize, count: (p.count + 1) as usize, ..p }
    } else {
        ContextPack { truncated: true, ..p }
    }
}

impl ContextPack {
    /// Starts with the mandatory policy of `mandatory_size` bytes.
    pub fn start(mandatory_size: usize, budget: usize) -> (p: ContextPack)
        ensures
            p.used == mandatory_size,
            p.count == 0,
            p.complete == (mandatory_size <= budget),
            p.truncated == !p.complete,
    {
        let complete = mandatory_size <= budget;
        ContextPack { used: mandatory_size, count: 0, truncated: !complete, complete }
    }

    /// Offers the next candidate; `true` when it was taken. A refused candidate marks the
    /// context truncated, and its category is not read further.
    pub fn offer(&mut self, size: usize, limit: usize, budget: usize) -> (taken: bool)
        ensures
            taken == takes(*old(self), size as int, limit as int, budget as int),
            *final(self) == after_offer(*old(self), size as int, limit as int, budget as int),
    {
        if self.complete && self.count < limit && self.used <= budget && size <= budget - self.used {
            self.used = self.used + size;
            self.count = self.count + 1;
            true
        } else {
            self.truncated = true;
            false
        }
    }

    /// Reaching the item limit leaves later categories unexamined, so it also truncates.
    pub fn finish(&mut self, limit: usize)
        ensures
            *final(self) == (ContextPack { truncated: old(self).truncated || old(self).count >= limit, ..*old(self) }),
    {
        if self.count >= limit {
            self.truncated = true;
        }
    }
}

/// What an agent should do next with a context.
#[derive(PartialEq, Eq, Structural, Clone, Copy, Debug)]
pub enum ContextAction {
    /// The mandatory policy alone exceeds the budget.
    IncreaseBudget,
    /// Something relevant was left out.
    RefineOrIncreaseBudget,
    /// Nothing matched.
    Broaden,
    /// The context is complete.
    Nothing,
}

pub open spec fn action_for(p: ContextPack) -> ContextAction {
    if !p.complete {
        ContextAction::IncreaseBudget
    } else if p.truncated {
        ContextAction::RefineOrIncreaseBudget
    } else if p.count == 0 {
        ContextAction::Broaden
    } else {
        ContextAction::Nothing
    }
}

pub fn next_action(p: &ContextPack) -> (r: ContextAction)
    ensures
        r == action_for(*p),
{
    if !p.complete {
        ContextAction::IncreaseBudget
    } else if p.truncated {
        ContextAction::RefineOrIncreaseBudget
    } else if p.count == 0 {
        ContextAction::Broaden
    } else {
        ContextAction::Nothing
    }
}

/// A context never outgrows its budget or limit: every offer keeps a pack within them.
pub proof fn law_offers_stay_within_budget(p: ContextPack, size: int, limit: int, budget: int)
    requires
        pack_within(p, limit, budget),
        0 <= size,
    ensures
        pack_within(after_offer(p, size, limit, budget), limit, budget),
{
}

/// Nothing is taken once the mandatory policy did not fit.
pub proof fn law_incomplete_policy_takes_nothing(p: ContextPack, size: int, limit: int, budget: int)
    requires
        !p.complete,
    ensures
        !takes(p, size, limit, budget),
        after_offer(p, size, limit, budget).count == p.count,
{
}

} // verus!
