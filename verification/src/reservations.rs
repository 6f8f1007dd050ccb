//! Shared resources and reservations: what a resource or a reservation request must hold,
//! when a whole resource set fits, the state a reservation shows, and who may release or
//! resolve it.
use vstd::prelude::*;

use crate::error::{
    bad_request_view, conflict_view, forbidden_view, not_found_view, AppError, ErrorView,
};
use crate::ids::{uuid_canonical, uuid_parse};
use crate::jobs::{bounded, resource_key, resource_key_shape};
use crate::text::str_eq;
use crate::validation::{bounded_message, bounded_ok};

verus! {

/// A globally shared resource to create.
pub struct ResourceInput {
    pub key: String,
    pub capacity: i64,
    pub description: String,
}

pub open spec fn resource_input_error(input: ResourceInput) -> Option<ErrorView> {
    if !bounded_ok(input.key@, 255, true) {
        Some(bad_request_view(bounded_message("key"@, 255, true)))
    } else if !resource_key_shape(input.key@) {
        Some(
            bad_request_view(
                "key must be a canonical lowercase resource name using letters, digits, -, _, ., :, or /."@,
            ),
        )
    } else if !bounded_ok(input.description@, 4096, false) {
        Some(bad_request_view(bounded_message("description"@, 4096, false)))
    } else if !(1 <= input.capacity <= 1000) {
        Some(bad_request_view("capacity must be between 1 and 1000."@))
    } else {
        None
    }
}

/// A canonical key, a description of at most 4096 bytes and a capacity of 1 to 1000 units.
pub fn validate_resource_input(input: &ResourceInput) -> (r: Result<(), AppError>)
    ensures
        match resource_input_error(*input) {
            None => r is Ok,
            Some(v) => (r matches Err(e) && e@ == v),
        },
{
    resource_key(input.key.as_str())?;
    bounded(input.description.as_str(), "description", 4096, false)?;
    if !(1 <= input.capacity && input.capacity <= 1000) {
        return Err(AppError::bad_request("capacity must be between 1 and 1000."));
    }
    Ok(())
}

/// A human operator creates resources, each under a key not yet used.
pub open spec fn resource_creation_error(actor_kind: Seq<char>, key_taken: bool) -> Option<ErrorView> {
    if actor_kind != "human"@ {
        Some(forbidden_view("A human operator creates globally shared resources."@))
    } else if key_taken {
        Some(conflict_view("resource_exists"@, "A resource already uses this canonical key."@))
    } else {
        None
    }
}

pub fn check_resource_creation(actor_kind: &str, key_taken: bool) -> (r: Result<(), AppError>)
    ensures
        match resource_creation_error(actor_kind@, key_taken) {
            None => r is Ok,
            Some(v) => (r matches Err(e) && e@ == v),
        },
{
    if !str_eq(actor_kind, "human") {
        return Err(AppError::forbidden("A human operator creates globally shared resources."));
    }
    if key_taken {
        return Err(AppError::conflict("resource_exists", "A resource already uses this canonical key."));
    }
    Ok(())
}

/// Units of one resource that a reservation asks for.
pub struct ReservationItem {
    pub resource_id: String,
    pub units: i64,
}

pub open spec fn item_ids(items: Seq<ReservationItem>) -> Seq<Seq<char>> {
    items.map_values(|i: ReservationItem| i.resource_id@)
}

/// The first of the first `n` items refused: an id that is not a UUID, or a repeated
/// resource or a count outside 1 to 1000.
pub open spec fn item_step_error(items: Seq<ReservationItem>, n: nat) -> Option<ErrorView>
    decreases n,
{
    if n == 0 {
        None
    } else if item_step_error(items, (n - 1) as nat) is Some {
        item_step_error(items, (n - 1) as nat)
    } else {
        let j = n - 1;
        if uuid_parse(items[j].resource_id@) is None {
            Some(bad_request_view("resource_id must be a UUID."@))
        } else if !(1 <= items[j].units <= 1000) || exists|k: int|
            0 <= k < j && item_ids(items)[k] == item_ids(items)[j] {
            Some(bad_request_view("Reservation resources must be distinct and request 1–1000 units."@))
        } else {
            None
        }
    }
}

pub open spec fn reservation_items_error(items: Seq<ReservationItem>) -> Option<ErrorView> {
    if items.len() == 0 || items.len() > 100 {
        Some(bad_request_view("Provide 1–100 reservation items."@))
    } else {
        item_step_error(items, items.len())
    }
}

proof fn lemma_item_error_stable(items: Seq<ReservationItem>, a: nat, b: nat)
    requires
        a <= b,
        item_step_error(items, a) is Some,
    ensures
        item_step_error(items, b) == item_step_error(items, a),
    decreases b - a,
{
    if a < b {
        lemma_item_error_stable(items, a, (b - 1) as nat);
    }
}

/// 1 to 100 items, each naming a distinct resource by UUID and asking for 1 to 1000 units.
pub fn validate_reservation_items(items: &Vec<ReservationItem>) -> (r: Result<(), AppError>)
    ensures
        match reservation_items_error(items@) {
            None => r is Ok,
            Some(v) => (r matches Err(e) && e@ == v),
        },
{
    if items.len() == 0 || items.len() > 100 {
        return Err(AppError::bad_request("Provide 1–100 reservation items."));
    }
    let ghost ids = item_ids(items@);
    let mut j: usize = 0;
    while j < items.len()
        invariant
            j <= items.len(),
            0 < items.len() <= 100,
            ids == item_ids(items@),
            item_step_error(items@, j as nat) is None,
        decreases items.len() - j,
    {
        let item = &items[j];
        let mut repeat = false;
        let mut k: usize = 0;
        while k < j && !repeat
            invariant
                k <= j < items.len(),
                ids == item_ids(items@),
                item == items@[j as int],
                repeat ==> exists|m: int| 0 <= m < j && ids[m] == ids[j as int],
                !repeat ==> forall|m: int| 0 <= m < k ==> ids[m] != ids[j as int],
            decreases j - k,
        {
            proof {
                assert(ids[k as int] == items@[k as int].resource_id@);
                assert(ids[j as int] == item.resource_id@);
            }
            if str_eq(items[k].resource_id.as_str(), item.resource_id.as_str()) {
                repeat = true;
            }
            k = k + 1;
        }
        let step: Option<AppError> = if uuid_canonical(item.resource_id.as_str()).is_none() {
            Some(AppError::bad_request("resource_id must be a UUID."))
        } else if !(1 <= item.units && item.units <= 1000) || repeat {
            Some(AppError::bad_request("Reservation resources must be distinct and request 1–1000 units."))
        } else {
            None
        };
        if let Some(e) = step {
            proof {
                assert(item_step_error(items@, (j + 1) as nat) == Some(e@));
                lemma_item_error_stable(items@, (j + 1) as nat, items.len() as nat);
            }
            return Err(e);
        }
        j = j + 1;
    }
    Ok(())
}

/// A reservation is made by an attempt doing work (not recovery) that holds none yet.
pub open spec fn reservation_start_error(attempt_mode: Seq<char>, held: i64) -> Option<ErrorView> {
    if attempt_mode != "work"@ {
        Some(
            conflict_view(
                "recovery_unresolved"@,
                "Resolve recovery inspection before reserving resources."@,
            ),
        )
    } else if held > 0 {
        Some(conflict_view("reservation_exists"@, "This attempt already has a held reservation."@))
    } else {
        None
    }
}

pub fn check_reservation_start(attempt_mode: &str, held: i64) -> (r: Result<(), AppError>)
    ensures
        match reservation_start_error(attempt_mode@, held) {
            None => r is Ok,
            Some(v) => (r matches Err(e) && e@ == v),
        },
{
    if !str_eq(attempt_mode, "work") {
        return Err(
            AppError::conflict(
                "recovery_unresolved",
                "Resolve recovery inspection before reserving resources.",
            ),
        );
    }
    if held > 0 {
        return Err(AppError::conflict("reservation_exists", "This attempt already has a held reservation."));
    }
    Ok(())
}

/// One requested item and what its resource holds: its capacity (none when the resource
/// does not exist) and the units held reservations already use.
pub struct CapacityFacts {
    pub units: i64,
    pub capacity: Option<i64>,
    pub used: i64,
}

pub open spec fn item_fits(f: CapacityFacts) -> bool {
    f.capacity matches Some(c) && f.used + f.units <= c
}

/// The first of the first `n` items that cannot be had: an unknown resource, or one
/// without room for the units asked.
pub open spec fn capacity_step_error(items: Seq<CapacityFacts>, n: nat) -> Option<ErrorView>
    decreases n,
{
    if n == 0 {
        None
    } else if capacity_step_error(items, (n - 1) as nat) is Some {
        capacity_step_error(items, (n - 1) as nat)
    } else if items[n - 1].capacity is None {
        Some(not_found_view())
    } else if !item_fits(items[n - 1]) {
        Some(
            conflict_view(
                "resource_unavailable"@,
                "The complete resource set is not currently available."@,
            ),
        )
    } else {
        None
    }
}

proof fn lemma_capacity_error_stable(items: Seq<CapacityFacts>, a: nat, b: nat)
    requires
        a <= b,
        capacity_step_error(items, a) is Some,
    ensures
        capacity_step_error(items, b) == capacity_step_error(items, a),
    decreases b - a,
{
    if a < b {
        lemma_capacity_error_stable(items, a, (b - 1) as nat);
    }
}

proof fn lemma_capacity_ok_fits(items: Seq<CapacityFacts>, n: nat, i: int)
    requires
        capacity_step_error(items, n) is None,
        0 <= i < n,
    ensures
        item_fits(items[i]),
    decreases n,
{
    if i < n - 1 {
        lemma_capacity_ok_fits(items, (n - 1) as nat, i);
    }
}

/// The whole resource set is granted or none of it: every item must fit.
pub fn check_capacity(items: &Vec<CapacityFacts>) -> (r: Result<(), AppError>)
    ensures
        match capacity_step_error(items@, items.len() as nat) {
            None => r is Ok,
            Some(v) => (r matches Err(e) && e@ == v),
        },
{
    let mut j: usize = 0;
    while j < items.len()
        invariant
            j <= items.len(),
            capacity_step_error(items@, j as nat) is None,
        decreases items.len() - j,
    {
        let f = &items[j];
        let step: Option<AppError> = match f.capacity {
            None => Some(AppError::not_found()),
            Some(c) => if (f.used as i128) + (f.units as i128) > (c as i128) {
                Some(
                    AppError::conflict(
                        "resource_unavailable",
                        "The complete resource set is not currently available.",
                    ),
                )
            } else {
                None
            },
        };
        if let Some(e) = step {
            proof {
                assert(capacity_step_error(items@, (j + 1) as nat) == Some(e@));
                lemma_capacity_error_stable(items@, (j + 1) as nat, items.len() as nat);
            }
            return Err(e);
        }
        j = j + 1;
    }
    Ok(())
}

/// A granted reservation never takes a resource past its capacity: when the check passes,
/// each item's units fit beside the units already held.
pub proof fn law_granted_reservations_fit(items: Seq<CapacityFacts>, i: int)
    requires
        capacity_step_error(items, items.len()) is None,
        0 <= i < items.len(),
    ensures
        items[i].capacity matches Some(c) && items[i].used + items[i].units <= c,
{
    lemma_capacity_ok_fits(items, items.len(), i);
}

/// A resource's id and capacity.
pub struct ResourceCapacity {
    pub id: String,
    pub capacity: i64,
}

/// A held reservation: the attempt that made it and the units it takes.
pub struct HeldReservation {
    pub attempt_id: String,
    pub items: Vec<ReservationItem>,
}

/// The resources and the reservations held on them.
pub struct ReservationBook {
    pub resources: Vec<ResourceCapacity>,
    pub held: Vec<HeldReservation>,
}

pub open spec fn caps_view(v: Seq<ResourceCapacity>) -> Seq<(Seq<char>, i64)> {
    v.map_values(|c: ResourceCapacity| (c.id@, c.capacity))
}

pub open spec fn items_view(v: Seq<ReservationItem>) -> Seq<(Seq<char>, int)> {
    v.map_values(|i: ReservationItem| (i.resource_id@, i.units as int))
}

pub open spec fn held_view(v: Seq<HeldReservation>) -> Seq<(Seq<char>, Seq<(Seq<char>, int)>)> {
    v.map_values(|h: HeldReservation| (h.attempt_id@, items_view(h.items@)))
}

/// The capacity of resource `r`, if it exists.
pub open spec fn capacity_of(caps: Seq<(Seq<char>, i64)>, r: Seq<char>) -> Option<i64>
    decreases caps.len(),
{
    if caps.len() == 0 {
        None
    } else if caps.last().0 == r {
        Some(caps.last().1)
    } else {
        capacity_of(caps.drop_last(), r)
    }
}

/// The units of resource `r` that one reservation's items take.
pub open spec fn units_of(items: Seq<(Seq<char>, int)>, r: Seq<char>) -> int
    decreases items.len(),
{
    if items.len() == 0 {
        0
    } else {
        units_of(items.drop_last(), r) + if items.last().0 == r {
            items.last().1
        } else {
            0
        }
    }
}

/// The units of resource `r` that the held reservations take together.
pub open spec fn held_units(held: Seq<(Seq<char>, Seq<(Seq<char>, int)>)>, r: Seq<char>) -> int
    decreases held.len(),
{
    if held.len() == 0 {
        0
    } else {
        held_units(held.drop_last(), r) + units_of(held.last().1, r)
    }
}

/// Every held item takes 1 to 1000 units.
pub open spec fn units_in_range(held: Seq<(Seq<char>, Seq<(Seq<char>, int)>)>) -> bool {
    forall|k: int, j: int|
        0 <= k < held.len() && 0 <= j < held[k].1.len() ==> 1 <= #[trigger] held[k].1[j].1 <= 1000
}

/// No resource is held past its capacity.
pub open spec fn within_capacity(
    caps: Seq<(Seq<char>, i64)>,
    held: Seq<(Seq<char>, Seq<(Seq<char>, int)>)>,
) -> bool {
    forall|r: Seq<char>| #[trigger] capacity_of(caps, r) matches Some(c) ==> held_units(held, r) <= c
}

impl ReservationBook {
    pub open spec fn wf(&self) -> bool {
        &&& units_in_range(held_view(self.held@))
        &&& within_capacity(caps_view(self.resources@), held_view(self.held@))
    }
}

/// Whether attempt `a` already holds a reservation.
pub open spec fn attempt_holds(held: Seq<(Seq<char>, Seq<(Seq<char>, int)>)>, a: Seq<char>) -> bool {
    exists|k: int| 0 <= k < held.len() && #[trigger] held[k].0 == a
}

/// What each requested item can be had against: its resource's capacity and the units
/// the held reservations already take of it.
pub open spec fn item_facts(
    caps: Seq<(Seq<char>, i64)>,
    held: Seq<(Seq<char>, Seq<(Seq<char>, int)>)>,
    items: Seq<ReservationItem>,
) -> Seq<CapacityFacts> {
    items.map_values(
        |i: ReservationItem|
            CapacityFacts {
                units: i.units,
                capacity: capacity_of(caps, i.resource_id@),
                used: if capacity_of(caps, i.resource_id@) is Some {
                    held_units(held, i.resource_id@) as i64
                } else {
                    0
                },
            },
    )
}

/// Why a reservation request is refused: its items, a recovery attempt or one already
/// holding a reservation, then the first item that is unknown or does not fit.
pub open spec fn reserve_error(
    caps: Seq<(Seq<char>, i64)>,
    held: Seq<(Seq<char>, Seq<(Seq<char>, int)>)>,
    attempt: Seq<char>,
    attempt_mode: Seq<char>,
    items: Seq<ReservationItem>,
) -> Option<ErrorView> {
    if reservation_items_error(items) is Some {
        reservation_items_error(items)
    } else if reservation_start_error(attempt_mode, if attempt_holds(held, attempt) { 1 } else { 0 }) is Some {
        reservation_start_error(attempt_mode, if attempt_holds(held, attempt) { 1 } else { 0 })
    } else {
        capacity_step_error(item_facts(caps, held, items), items.len())
    }
}

proof fn lemma_items_ok(items: Seq<ReservationItem>, n: nat)
    requires
        n <= items.len(),
        item_step_error(items, n) is None,
    ensures
        forall|j: int| 0 <= j < n ==> 1 <= #[trigger] items[j].units <= 1000,
        forall|j: int, k: int| 0 <= k < j < n ==> items[k].resource_id@ != items[j].resource_id@,
    decreases n,
{
    if n > 0 {
        lemma_item_error_stable_none(items, (n - 1) as nat, n);
        lemma_items_ok(items, (n - 1) as nat);
        let j = n - 1;
        assert forall|k: int| 0 <= k < j implies items[k].resource_id@ != items[j].resource_id@ by {
            assert(item_ids(items)[k] == items[k].resource_id@);
            assert(item_ids(items)[j] == items[j].resource_id@);
        }
    }
}

proof fn lemma_item_error_stable_none(items: Seq<ReservationItem>, a: nat, b: nat)
    requires
        a <= b,
        item_step_error(items, b) is None,
    ensures
        item_step_error(items, a) is None,
{
    if item_step_error(items, a) is Some {
        lemma_item_error_stable(items, a, b);
    }
}

/// With distinct resource ids, a reservation takes of `r` exactly the units of its item for
/// `r`, and none when it has no such item.
proof fn lemma_units_of_distinct(items: Seq<(Seq<char>, int)>, r: Seq<char>)
    requires
        forall|j: int, k: int| 0 <= k < j < items.len() ==> items[k].0 != items[j].0,
    ensures
        (forall|j: int| 0 <= j < items.len() ==> items[j].0 != r) ==> units_of(items, r) == 0,
        forall|i: int| 0 <= i < items.len() && items[i].0 == r ==> units_of(items, r) == #[trigger] items[i].1,
    decreases items.len(),
{
    if items.len() > 0 {
        let d = items.drop_last();
        assert forall|j: int, k: int| 0 <= k < j < d.len() implies d[k].0 != d[j].0 by {
            assert(d[k] == items[k] && d[j] == items[j]);
        }
        lemma_units_of_distinct(d, r);
        assert forall|j: int| 0 <= j < d.len() && items.last().0 == r implies d[j].0 != r by {
            assert(d[j] == items[j]);
        }
        assert forall|i: int| 0 <= i < items.len() && items[i].0 == r implies units_of(items, r) == #[trigger] items[i].1 by {
            if i < items.len() - 1 {
                assert(d[i] == items[i]);
            }
        }
        if forall|j: int| 0 <= j < items.len() ==> items[j].0 != r {
            assert forall|j: int| 0 <= j < d.len() implies d[j].0 != r by {
                assert(d[j] == items[j]);
            }
        }
    }
}

proof fn lemma_units_of_prefix(items: Seq<(Seq<char>, int)>, r: Seq<char>, n: int)
    requires
        0 <= n <= items.len(),
        forall|j: int| 0 <= j < items.len() ==> 0 <= #[trigger] items[j].1,
    ensures
        0 <= units_of(items.take(n), r) <= units_of(items, r),
    decreases items.len(),
{
    if n < items.len() {
        let d = items.drop_last();
        assert forall|j: int| 0 <= j < d.len() implies 0 <= #[trigger] d[j].1 by {
            assert(d[j] == items[j]);
        }
        lemma_units_of_prefix(d, r, n);
        assert(d.take(n) =~= items.take(n));
    } else {
        assert(items.take(n) =~= items);
        lemma_units_of_nonneg(items, r);
    }
}

proof fn lemma_units_of_nonneg(items: Seq<(Seq<char>, int)>, r: Seq<char>)
    requires
        forall|j: int| 0 <= j < items.len() ==> 0 <= #[trigger] items[j].1,
    ensures
        0 <= units_of(items, r),
    decreases items.len(),
{
    if items.len() > 0 {
        let d = items.drop_last();
        assert forall|j: int| 0 <= j < d.len() implies 0 <= #[trigger] d[j].1 by {
            assert(d[j] == items[j]);
        }
        lemma_units_of_nonneg(d, r);
    }
}

proof fn lemma_held_units_prefix(held: Seq<(Seq<char>, Seq<(Seq<char>, int)>)>, r: Seq<char>, n: int)
    requires
        0 <= n <= held.len(),
        units_in_range(held),
    ensures
        0 <= held_units(held.take(n), r) <= held_units(held, r),
    decreases held.len(),
{
    if held.len() > 0 {
        let d = held.drop_last();
        assert forall|k: int, j: int| 0 <= k < d.len() && 0 <= j < d[k].1.len() implies 1 <= #[trigger] d[k].1[j].1 <= 1000 by {
            assert(d[k] == held[k]);
            assert(held[k].1[j].1 == d[k].1[j].1);
        }
        assert forall|j: int| 0 <= j < held.last().1.len() implies 0 <= #[trigger] held.last().1[j].1 by {
            assert(held[held.len() - 1].1[j].1 == held.last().1[j].1);
        }
        lemma_units_of_nonneg(held.last().1, r);
        if n < held.len() {
            lemma_held_units_prefix(d, r, n);
            assert(d.take(n) =~= held.take(n));
        } else {
            lemma_held_units_prefix(d, r, d.len() as int);
            assert(held.take(n) =~= held);
            assert(d.take(d.len() as int) =~= d);
        }
    } else {
        assert(held.take(n) =~= held);
    }
}

/// A granted request keeps every resource within its capacity: the held units of each
/// resource after the new reservation never pass the resource's capacity.
pub proof fn law_reservations_stay_within_capacity(
    caps: Seq<(Seq<char>, i64)>,
    held: Seq<(Seq<char>, Seq<(Seq<char>, int)>)>,
    attempt: Seq<char>,
    attempt_mode: Seq<char>,
    items: Seq<ReservationItem>,
)
    requires
        within_capacity(caps, held),
        units_in_range(held),
        reserve_error(caps, held, attempt, attempt_mode, items) is None,
    ensures
        within_capacity(caps, held.push((attempt, items_view(items)))),
        units_in_range(held.push((attempt, items_view(items)))),
{
    let new = items_view(items);
    let after = held.push((attempt, new));
    lemma_items_ok(items, items.len());
    assert forall|j: int, k: int| 0 <= k < j < new.len() implies new[k].0 != new[j].0 by {
        assert(new[k].0 == items[k].resource_id@ && new[j].0 == items[j].resource_id@);
    }
    let facts = item_facts(caps, held, items);
    assert forall|r: Seq<char>| #[trigger] capacity_of(caps, r) is Some implies held_units(after, r)
        <= capacity_of(caps, r)->Some_0 by {
        let c = capacity_of(caps, r)->Some_0;
        assert(after.drop_last() =~= held);
        assert(after.last().1 == new);
        assert(held_units(after, r) == held_units(held, r) + units_of(new, r));
        assert(held_units(held, r) <= c);
        lemma_held_units_prefix(held, r, held.len() as int);
        assert(held.take(held.len() as int) =~= held);
        assert(0 <= held_units(held, r));
        lemma_units_of_distinct(new, r);
        if exists|i: int| 0 <= i < new.len() && new[i].0 == r {
            let i = choose|i: int| 0 <= i < new.len() && new[i].0 == r;
            assert(units_of(new, r) == new[i].1);
            assert(new[i].1 == items[i].units);
            assert(items[i].resource_id@ == r);
            lemma_capacity_ok_fits(facts, items.len(), i);
            assert(facts[i].capacity == capacity_of(caps, r));
            assert(facts[i].used == held_units(held, r) as i64);
            assert(facts[i].used == held_units(held, r));
            assert(facts[i].units == items[i].units);
        } else {
            assert(units_of(new, r) == 0);
        }
    }
    assert forall|k: int, j: int| 0 <= k < after.len() && 0 <= j < after[k].1.len() implies 1 <= #[trigger] after[k].1[j].1 <= 1000 by {
        if k < held.len() {
            assert(after[k] == held[k]);
        } else {
            assert(after[k].1[j].1 == items[j].units);
        }
    }
}

fn find_capacity(resources: &Vec<ResourceCapacity>, r: &str) -> (c: Option<i64>)
    ensures
        c == capacity_of(caps_view(resources@), r@),
{
    let ghost caps = caps_view(resources@);
    let mut found: Option<i64> = None;
    let mut i: usize = 0;
    while i < resources.len()
        invariant
            i <= resources.len(),
            caps == caps_view(resources@),
            found == capacity_of(caps.take(i as int), r@),
        decreases resources.len() - i,
    {
        proof {
            assert(caps.take(i + 1).drop_last() =~= caps.take(i as int));
        }
        if str_eq(resources[i].id.as_str(), r) {
            found = Some(resources[i].capacity);
        }
        i = i + 1;
    }
    proof {
        assert(caps.take(resources.len() as int) =~= caps);
    }
    found
}

fn units_taken(items: &Vec<ReservationItem>, r: &str) -> (n: i64)
    requires
        forall|j: int| 0 <= j < items.len() ==> 0 <= #[trigger] items_view(items@)[j].1,
        units_of(items_view(items@), r@) <= i64::MAX,
    ensures
        n == units_of(items_view(items@), r@),
{
    let ghost v = items_view(items@);
    let mut n: i64 = 0;
    let mut i: usize = 0;
    while i < items.len()
        invariant
            i <= items.len(),
            v == items_view(items@),
            forall|j: int| 0 <= j < v.len() ==> 0 <= #[trigger] v[j].1,
            units_of(v, r@) <= i64::MAX,
            n == units_of(v.take(i as int), r@),
        decreases items.len() - i,
    {
        proof {
            assert(v.take(i + 1).drop_last() =~= v.take(i as int));
            lemma_units_of_prefix(v, r@, i + 1);
        }
        if str_eq(items[i].resource_id.as_str(), r) {
            n = n + items[i].units;
        }
        i = i + 1;
    }
    proof {
        assert(v.take(items.len() as int) =~= v);
    }
    n
}

fn held_taken(held: &Vec<HeldReservation>, r: &str) -> (n: i64)
    requires
        units_in_range(held_view(held@)),
        held_units(held_view(held@), r@) <= i64::MAX,
    ensures
        n == held_units(held_view(held@), r@),
{
    let ghost v = held_view(held@);
    let mut n: i64 = 0;
    let mut k: usize = 0;
    while k < held.len()
        invariant
            k <= held.len(),
            v == held_view(held@),
            units_in_range(v),
            held_units(v, r@) <= i64::MAX,
            n == held_units(v.take(k as int), r@),
        decreases held.len() - k,
    {
        proof {
            assert(v.take(k + 1).drop_last() =~= v.take(k as int));
            lemma_held_units_prefix(v, r@, k + 1);
            assert(v.take(k + 1).last() == v[k as int]);
            assert(v[k as int].1 == items_view(held@[k as int].items@));
            assert forall|j: int| 0 <= j < held@[k as int].items@.len() implies 0 <= #[trigger] items_view(
                held@[k as int].items@,
            )[j].1 by {
                assert(v[k as int].1[j].1 == items_view(held@[k as int].items@)[j].1);
            }
            lemma_units_of_nonneg(v[k as int].1, r@);
            lemma_held_units_prefix(v.take(k + 1), r@, k as int);
            assert(v.take(k + 1).take(k as int) =~= v.take(k as int));
        }
        let m = units_taken(&held[k].items, r);
        n = n + m;
        k = k + 1;
    }
    proof {
        assert(v.take(held.len() as int) =~= v);
    }
    n
}

fn attempt_has_reservation(held: &Vec<HeldReservation>, a: &str) -> (b: bool)
    ensures
        b == attempt_holds(held_view(held@), a@),
{
    let ghost v = held_view(held@);
    let mut k: usize = 0;
    while k < held.len()
        invariant
            k <= held.len(),
            v == held_view(held@),
            forall|j: int| 0 <= j < k ==> v[j].0 != a@,
        decreases held.len() - k,
    {
        if str_eq(held[k].attempt_id.as_str(), a) {
            assert(v[k as int].0 == a@);
            return true;
        }
        k = k + 1;
    }
    false
}

impl ReservationBook {
    /// Reserve `items` for an attempt: the whole set or nothing. On success exactly one
    /// held reservation, carrying every requested item, is added.
    pub fn reserve(&mut self, attempt_id: &str, attempt_mode: &str, items: Vec<ReservationItem>) -> (r:
        Result<(), AppError>)
        requires
            old(self).wf(),
        ensures
            final(self).wf(),
            caps_view(final(self).resources@) == caps_view(old(self).resources@),
            match reserve_error(
                caps_view(old(self).resources@),
                held_view(old(self).held@),
                attempt_id@,
                attempt_mode@,
                items@,
            ) {
                Some(e) => (r matches Err(x) && x@ == e) && held_view(final(self).held@) == held_view(
                    old(self).held@,
                ),
                None => r is Ok && held_view(final(self).held@) == held_view(old(self).held@).push(
                    (attempt_id@, items_view(items@)),
                ),
            },
    {
        let ghost caps = caps_view(self.resources@);
        let ghost held = held_view(self.held@);
        validate_reservation_items(&items)?;
        let holds = attempt_has_reservation(&self.held, attempt_id);
        check_reservation_start(attempt_mode, if holds {
            1
        } else {
            0
        })?;
        let mut facts: Vec<CapacityFacts> = Vec::new();
        let mut j: usize = 0;
        while j < items.len()
            invariant
                j <= items.len(),
                caps == caps_view(self.resources@),
                held == held_view(self.held@),
                self.wf(),
                facts@ == item_facts(caps, held, items@).take(j as int),
            decreases items.len() - j,
        {
            let cap = find_capacity(&self.resources, items[j].resource_id.as_str());
            let used = match cap {
                Some(c) => {
                    assert(capacity_of(caps, items@[j as int].resource_id@) is Some);
                    held_taken(&self.held, items[j].resource_id.as_str())
                },
                None => 0,
            };
            facts.push(CapacityFacts { units: items[j].units, capacity: cap, used });
            proof {
                assert(facts@ =~= item_facts(caps, held, items@).take(j + 1));
            }
            j = j + 1;
        }
        proof {
            assert(facts@ =~= item_facts(caps, held, items@));
        }
        check_capacity(&facts)?;
        proof {
            law_reservations_stay_within_capacity(caps, held, attempt_id@, attempt_mode@, items@);
        }
        self.held.push(HeldReservation { attempt_id: attempt_id.to_owned(), items });
        proof {
            assert(held_view(self.held@) =~= held.push((attempt_id@, items_view(items@))));
        }
        Ok(())
    }
}

/// What a reservation's state is read from: the attempt that made it, whether that attempt
/// still owns the task, and whether its principal and credential or browser session live.
pub struct HolderFacts {
    pub attempt_state: String,
    pub attempt_expires_at: i64,
    pub is_current_attempt: bool,
    pub principal_disabled: bool,
    pub has_credential: bool,
    pub credential_revoked: bool,
    pub credential_expires: Option<i64>,
    pub session_closed: bool,
    pub browser_revoked: bool,
    pub browser_expires: Option<i64>,
}

/// The holder's principal is enabled and its credential (with an open agent session) or
/// browser session is unrevoked and unexpired at `now`.
pub open spec fn holder_live(h: HolderFacts, now: i64) -> bool {
    !h.principal_disabled && if h.has_credential {
        !h.credential_revoked && (match h.credential_expires {
            Some(x) => x > now,
            None => true,
        }) && !h.session_closed
    } else {
        !h.browser_revoked && (h.browser_expires matches Some(x) && x > now)
    }
}

/// A stored `held` reservation shows `held` while its attempt is active, unexpired, still
/// the task's owner and its holder live; otherwise `recovery_required`. Other stored
/// states show as stored.
pub open spec fn reservation_state_of(stored: Seq<char>, h: HolderFacts, now: i64) -> Seq<char> {
    if stored != "held"@ {
        stored
    } else if h.attempt_state@ == "active"@ && h.attempt_expires_at > now && h.is_current_attempt
        && holder_live(h, now) {
        "held"@
    } else {
        "recovery_required"@
    }
}

pub fn reservation_state(stored: &str, h: &HolderFacts, now: i64) -> (r: String)
    ensures
        r@ == reservation_state_of(stored@, *h, now),
{
    if !str_eq(stored, "held") {
        return stored.to_owned();
    }
    let live = !h.principal_disabled && if h.has_credential {
        !h.credential_revoked && (match h.credential_expires {
            Some(x) => x > now,
            None => true,
        }) && !h.session_closed
    } else {
        !h.browser_revoked && (match h.browser_expires {
            Some(x) => x > now,
            None => false,
        })
    };
    if str_eq(h.attempt_state.as_str(), "active") && h.attempt_expires_at > now
        && h.is_current_attempt && live {
        "held".to_owned()
    } else {
        "recovery_required".to_owned()
    }
}

/// Releasing needs a task still owned by an attempt: its id, or a conflict.
pub fn release_holder(current_attempt_id: Option<&str>) -> (r: Result<&str, AppError>)
    ensures
        match current_attempt_id {
            Some(id) => (r matches Ok(x) && x@ == id@),
            None => (r matches Err(e) && e@ == conflict_view(
                "lease_expired"@,
                "Claim recovery before releasing this reservation."@,
            )),
        },
{
    match current_attempt_id {
        Some(id) => Ok(id),
        None => Err(
            AppError::conflict("lease_expired", "Claim recovery before releasing this reservation."),
        ),
    }
}

/// The attempt that made the reservation releases it, or a recovery attempt of the same task.
pub open spec fn release_authorized(
    current_id: Seq<char>,
    current_mode: Seq<char>,
    current_task: Seq<char>,
    original_id: Seq<char>,
    task_id: Seq<char>,
) -> bool {
    current_id == original_id || (current_mode == "recovery"@ && current_task == task_id)
}

pub fn check_release_authority(
    current_id: &str,
    current_mode: &str,
    current_task: &str,
    original_id: &str,
    task_id: &str,
) -> (r: Result<(), AppError>)
    ensures
        r is Ok <==> release_authorized(current_id@, current_mode@, current_task@, original_id@, task_id@),
        r matches Err(e) ==> e@ == forbidden_view(
            ("Only the current owner of this"@ + " task may release its reservation."@),
        ),
{
    if !str_eq(current_id, original_id) && (!str_eq(current_mode, "recovery") || !str_eq(
        current_task,
        task_id,
    )) {
        return Err(AppError::forbidden(crate::text::concat("Only the current owner of this", " task may release its reservation.").as_str()));
    }
    Ok(())
}

pub open spec fn not_held_view() -> ErrorView {
    conflict_view("reservation_not_held"@, "This reservation is no longer held."@)
}

/// Only a held reservation is released, once every attached job is finished or reconciled.
pub open spec fn release_state_error(stored: Seq<char>, unfinished_jobs: i64) -> Option<ErrorView> {
    if stored != "held"@ {
        Some(not_held_view())
    } else if unfinished_jobs > 0 {
        Some(
            conflict_view(
                "jobs_still_running"@,
                "Inspect every attached producer and record a terminal result before releasing this resource set."@,
            ),
        )
    } else {
        None
    }
}

pub fn check_release_state(stored: &str, unfinished_jobs: i64) -> (r: Result<(), AppError>)
    ensures
        match release_state_error(stored@, unfinished_jobs) {
            None => r is Ok,
            Some(v) => (r matches Err(e) && e@ == v),
        },
{
    if !str_eq(stored, "held") {
        return Err(AppError::conflict("reservation_not_held", "This reservation is no longer held."));
    }
    if unfinished_jobs > 0 {
        return Err(
            AppError::conflict(
                "jobs_still_running",
                "Inspect every attached producer and record a terminal result before releasing this resource set.",
            ),
        );
    }
    Ok(())
}

/// A human operator resolves an uncertain reservation, which must exist and still be held.
pub open spec fn resolution_error(actor_kind: Seq<char>, stored: Option<Seq<char>>) -> Option<ErrorView> {
    if actor_kind != "human"@ {
        Some(forbidden_view("A human operator must resolve uncertain physical resources."@))
    } else if stored is None {
        Some(not_found_view())
    } else if stored != Some("held"@) {
        Some(not_held_view())
    } else {
        None
    }
}

pub fn check_resolution(actor_kind: &str, stored: Option<&str>) -> (r: Result<(), AppError>)
    ensures
        match resolution_error(
            actor_kind@,
            match stored {
                Some(s) => Some(s@),
                None => None,
            },
        ) {
            None => r is Ok,
            Some(v) => (r matches Err(e) && e@ == v),
        },
{
    if !str_eq(actor_kind, "human") {
        return Err(AppError::forbidden("A human operator must resolve uncertain physical resources."));
    }
    match stored {
        None => Err(AppError::not_found()),
        Some(s) => if str_eq(s, "held") {
            Ok(())
        } else {
            Err(AppError::conflict("reservation_not_held", "This reservation is no longer held."))
        },
    }
}

} // verus!
