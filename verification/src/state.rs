//! Sign-in budget: each one-minute window admits at most five attempts per
//! account name and at most twenty-five distinct names.
use vstd::prelude::*;

use crate::text::str_eq;

verus! {

/// Length of one sign-in budget window.
pub const LOGIN_WINDOW_MS: u64 = 60_000;

/// Attempts admitted per name in one window.
pub const LOGIN_ATTEMPTS_PER_NAME: u32 = 5;

/// Distinct names admitted in one window.
pub const LOGIN_NAMES_PER_WINDOW: usize = 25;

/// One name and the attempts admitted for it in the current window.
pub struct NameAttempts {
    pub name: String,
    pub attempts: u32,
}

/// The sign-in budget of the current window.
pub struct LoginLimits {
    window_start: u64,
    names: Vec<NameAttempts>,
}

/// What the budget holds: when its window began and the attempts per name.
pub struct LoginLimitsView {
    pub window_start: u64,
    pub attempts: Map<Seq<char>, nat>,
}

pub open spec fn entries_map(names: Seq<NameAttempts>) -> Map<Seq<char>, nat>
    decreases names.len(),
{
    if names.len() == 0 {
        Map::empty()
    } else {
        entries_map(names.drop_last()).insert(names.last().name@, names.last().attempts as nat)
    }
}

/// True when a window that began at `start` has ended by `now`.
pub open spec fn window_over(start: u64, now: u64) -> bool {
    now < start || now - start >= LOGIN_WINDOW_MS
}

/// The attempts that count at `now`: the current window's, or none once it is over.
pub open spec fn live_attempts(v: LoginLimitsView, now: u64) -> Map<Seq<char>, nat> {
    if window_over(v.window_start, now) {
        Map::empty()
    } else {
        v.attempts
    }
}

/// Whether an attempt for `name` at `now` fits the budget.
pub open spec fn admits(v: LoginLimitsView, name: Seq<char>, now: u64) -> bool {
    let live = live_attempts(v, now);
    if live.contains_key(name) {
        live[name] < LOGIN_ATTEMPTS_PER_NAME
    } else {
        live.len() < LOGIN_NAMES_PER_WINDOW
    }
}

/// The budget after deciding an attempt for `name` at `now`.
pub open spec fn after_attempt(v: LoginLimitsView, name: Seq<char>, now: u64) -> LoginLimitsView {
    let live = live_attempts(v, now);
    let start = if window_over(v.window_start, now) {
        now
    } else {
        v.window_start
    };
    let attempts = if admits(v, name, now) {
        live.insert(
            name,
            if live.contains_key(name) {
                live[name] + 1
            } else {
                1
            },
        )
    } else {
        live
    };
    LoginLimitsView { window_start: start, attempts }
}

/// The bounds every budget keeps: at most five attempts per name and at most
/// twenty-five names in one window.
pub open spec fn within_budget(v: LoginLimitsView) -> bool {
    &&& v.attempts.dom().finite()
    &&& v.attempts.len() <= LOGIN_NAMES_PER_WINDOW
    &&& forall|n: Seq<char>| #[trigger] v.attempts.contains_key(n) ==> v.attempts[n] <= LOGIN_ATTEMPTS_PER_NAME
}

impl View for LoginLimits {
    type V = LoginLimitsView;

    closed spec fn view(&self) -> LoginLimitsView {
        LoginLimitsView { window_start: self.window_start, attempts: entries_map(self.names@) }
    }
}

proof fn lemma_entries_map_finite(names: Seq<NameAttempts>)
    ensures
        entries_map(names).dom().finite(),
        entries_map(names).len() <= names.len(),
    decreases names.len(),
{
    if names.len() > 0 {
        lemma_entries_map_finite(names.drop_last());
    }
}

impl LoginLimits {
    /// Names are distinct and each count is between one and five; at most 25 names.
    pub closed spec fn well_formed(&self) -> bool {
        &&& self.names@.len() <= LOGIN_NAMES_PER_WINDOW
        &&& forall|i: int, j: int|
            0 <= i < j < self.names@.len() ==> #[trigger] self.names@[i].name@
                != #[trigger] self.names@[j].name@
        &&& forall|i: int|
            0 <= i < self.names@.len() ==> 1 <= #[trigger] self.names@[i].attempts
                <= LOGIN_ATTEMPTS_PER_NAME
    }

    /// An empty budget whose window begins at time zero.
    pub fn new() -> (l: LoginLimits)
        ensures
            l.well_formed(),
            l@.attempts == Map::<Seq<char>, nat>::empty(),
            l@.window_start == 0,
    {
        LoginLimits { window_start: 0, names: Vec::new() }
    }

    proof fn lemma_view_facts(&self)
        requires
            self.well_formed(),
        ensures
            within_budget(self@),
            self@.attempts.len() == self.names@.len(),
            forall|i: int|
                0 <= i < self.names@.len() ==> #[trigger] self@.attempts.contains_key(
                    self.names@[i].name@,
                ) && self@.attempts[self.names@[i].name@] == self.names@[i].attempts,
            forall|n: Seq<char>|
                #[trigger] self@.attempts.contains_key(n) ==> exists|i: int|
                    0 <= i < self.names@.len() && self.names@[i].name@ == n,
    {
        lemma_distinct_entries(self.names@);
    }

    /// Decides a sign-in attempt for `name` at the current wall-clock time.
    pub fn try_admit(&mut self, name: &str) -> (admitted: bool)
        requires
            old(self).well_formed(),
        ensures
            final(self).well_formed(),
            exists|now: u64|
                admitted == admits(old(self)@, name@, now) && final(self)@ == after_attempt(
                    old(self)@,
                    name@,
                    now,
                ),
    {
        let now = clock_ms();
        self.admit_at(name, now)
    }

    /// Decides a sign-in attempt for `name` at `now` (milliseconds) and records
    /// it when admitted. A window that has ended is discarded first.
    pub fn admit_at(&mut self, name: &str, now: u64) -> (admitted: bool)
        requires
            old(self).well_formed(),
        ensures
            final(self).well_formed(),
            admitted == admits(old(self)@, name@, now),
            final(self)@ == after_attempt(old(self)@, name@, now),
    {
        proof {
            self.lemma_view_facts();
        }
        if now < self.window_start || now - self.window_start >= LOGIN_WINDOW_MS {
            self.window_start = now;
            self.names = Vec::new();
            assert(entries_map(self.names@) =~= Map::<Seq<char>, nat>::empty());
        }
        proof {
            self.lemma_view_facts();
        }
        let mut i: usize = 0;
        while i < self.names.len()
            invariant
                self.well_formed(),
                i <= self.names.len(),
                forall|j: int| 0 <= j < i ==> self.names@[j].name@ != name@,
                self@.attempts == live_attempts(old(self)@, now),
                self@.window_start == (if window_over(old(self)@.window_start, now) {
                    now
                } else {
                    old(self)@.window_start
                }),
            decreases self.names.len() - i,
        {
            if str_eq(self.names[i].name.as_str(), name) {
                proof {
                    self.lemma_view_facts();
                }
                if self.names[i].attempts >= LOGIN_ATTEMPTS_PER_NAME {
                    assert(self@ == after_attempt(old(self)@, name@, now));
                    return false;
                }
                let ghost before = self.names@;
                let entry = NameAttempts {
                    name: self.names[i].name.clone(),
                    attempts: self.names[i].attempts + 1,
                };
                self.names.set(i, entry);
                proof {
                    lemma_entries_map_update(before, i as int, self.names@);
                    lemma_distinct_entries(before);
                }
                return true;
            }
            i = i + 1;
        }
        proof {
            assert forall|n: Seq<char>| self@.attempts.contains_key(n) implies n != name@ by {
                self.lemma_view_facts();
            }
        }
        if self.names.len() >= LOGIN_NAMES_PER_WINDOW {
            proof {
                self.lemma_view_facts();
            }
            assert(self@ == after_attempt(old(self)@, name@, now));
            return false;
        }
        proof {
            self.lemma_view_facts();
        }
        let ghost before = self.names@;
        let ghost before_view = self@;
        assert(!before_view.attempts.contains_key(name@));
        assert(admits(old(self)@, name@, now));
        self.names.push(NameAttempts { name: name.to_owned(), attempts: 1 });
        assert(self.names@.drop_last() =~= before);
        assert(self@.attempts =~= before_view.attempts.insert(name@, 1));
        assert(self@ == after_attempt(old(self)@, name@, now));
        true
    }
}

impl Default for LoginLimits {
    fn default() -> (l: LoginLimits)
        ensures
            l.well_formed(),
            l@.attempts == Map::<Seq<char>, nat>::empty(),
            l@.window_start == 0,
    {
        LoginLimits::new()
    }
}

/// `SystemTime::now()` in milliseconds since the Unix epoch (zero for a clock
/// set before it). Nothing is stated of the value: it is the machine's clock.
#[verifier::external_body]
fn clock_ms() -> u64 {
    match std::time::SystemTime::now().duration_since(std::time::UNIX_EPOCH) {
        Ok(elapsed) => elapsed.as_millis() as u64,
        Err(_) => 0,
    }
}

/// The map of distinct entries has one key per entry, with that entry's count.
proof fn lemma_distinct_entries(names: Seq<NameAttempts>)
    requires
        forall|i: int, j: int|
            0 <= i < j < names.len() ==> #[trigger] names[i].name@ != #[trigger] names[j].name@,
        forall|i: int| 0 <= i < names.len() ==> 1 <= #[trigger] names[i].attempts <= LOGIN_ATTEMPTS_PER_NAME,
    ensures
        entries_map(names).dom().finite(),
        entries_map(names).len() == names.len(),
        forall|i: int|
            0 <= i < names.len() ==> #[trigger] entries_map(names).contains_key(names[i].name@)
                && entries_map(names)[names[i].name@] == names[i].attempts,
        forall|n: Seq<char>|
            #[trigger] entries_map(names).contains_key(n) ==> exists|i: int|
                0 <= i < names.len() && names[i].name@ == n,
        within_budget(
            LoginLimitsView { window_start: 0, attempts: entries_map(names) },
        ) || names.len() > LOGIN_NAMES_PER_WINDOW,
    decreases names.len(),
{
    lemma_entries_map_finite(names);
    if names.len() > 0 {
        let init = names.drop_last();
        lemma_distinct_entries(init);
        assert(!entries_map(init).contains_key(names.last().name@)) by {
            if entries_map(init).contains_key(names.last().name@) {
                let i = choose|i: int| 0 <= i < init.len() && init[i].name@ == names.last().name@;
                assert(names[i].name@ != names[names.len() - 1].name@);
            }
        }
        assert forall|n: Seq<char>| #[trigger] entries_map(names).contains_key(n) implies exists|i: int|
            0 <= i < names.len() && names[i].name@ == n by {
            if n != names.last().name@ {
                let i = choose|i: int| 0 <= i < init.len() && init[i].name@ == n;
                assert(names[i].name@ == n);
            } else {
                assert(names[names.len() - 1].name@ == n);
            }
        }
        assert forall|i: int| 0 <= i < names.len() implies #[trigger] entries_map(names).contains_key(
            names[i].name@,
        ) && entries_map(names)[names[i].name@] == names[i].attempts by {
            if i < names.len() - 1 {
                assert(init[i] == names[i]);
            }
        }
        assert forall|n: Seq<char>| #[trigger] entries_map(names).contains_key(n) implies entries_map(
            names,
        )[n] <= LOGIN_ATTEMPTS_PER_NAME by {
            let i = choose|i: int| 0 <= i < names.len() && names[i].name@ == n;
        }
    }
}

/// Updating one entry's count updates exactly that key of the map.
proof fn lemma_entries_map_update(before: Seq<NameAttempts>, k: int, after: Seq<NameAttempts>)
    requires
        0 <= k < before.len(),
        after.len() == before.len(),
        after[k].name@ == before[k].name@,
        forall|j: int| 0 <= j < before.len() && j != k ==> after[j] == before[j],
        forall|i: int, j: int|
            0 <= i < j < before.len() ==> #[trigger] before[i].name@ != #[trigger] before[j].name@,
    ensures
        entries_map(after) == entries_map(before).insert(before[k].name@, after[k].attempts as nat),
    decreases before.len(),
{
    if k == before.len() - 1 {
        assert(after.drop_last() =~= before.drop_last());
        assert(entries_map(after) =~= entries_map(before).insert(
            before[k].name@,
            after[k].attempts as nat,
        ));
    } else {
        lemma_entries_map_update(before.drop_last(), k, after.drop_last());
        assert(after.last() == before.last());
        assert(before.last().name@ != before[k].name@) by {
            assert(before[k].name@ != before[before.len() - 1].name@);
        }
        assert(entries_map(after) =~= entries_map(before).insert(
            before[k].name@,
            after[k].attempts as nat,
        ));
    }
}

/// Within any window, the budget never admits a sixth attempt for one name
/// nor a twenty-sixth name: every decision keeps both bounds.
pub proof fn law_budget_bounds_hold(v: LoginLimitsView, name: Seq<char>, now: u64)
    requires
        within_budget(v),
    ensures
        within_budget(after_attempt(v, name, now)),
{
    let live = live_attempts(v, now);
    if admits(v, name, now) && !live.contains_key(name) {
        assert(live.insert(name, 1).len() == live.len() + 1);
    }
}

/// A refused attempt leaves the window's record unchanged.
pub proof fn law_refusal_changes_nothing_in_window(v: LoginLimitsView, name: Seq<char>, now: u64)
    requires
        !window_over(v.window_start, now),
        !admits(v, name, now),
    ensures
        after_attempt(v, name, now) == v,
{
}

} // verus!
