//! Idempotent mutations: the key a client persists before sending, and what a
//! stored receipt for that key means for a new request.
use vstd::prelude::*;
use vstd::string::StringSliceAdditionalSpecFns;

use crate::auth::Actor;
use crate::error::{bad_request_view, conflict_view, internal_view, AppError};
use crate::text::{byte_is_ascii_graphic, str_eq, utf8};

verus! {

/// How long a receipt's result may be replayed: 30 days.
pub const RECEIPT_REPLAY_MS: i64 = 2_592_000_000;

/// A key of 1 to 128 visible ASCII bytes.
pub open spec fn valid_key_bytes(bytes: Seq<u8>) -> bool {
    1 <= bytes.len() <= 128 && forall|i: int|
        0 <= i < bytes.len() ==> byte_is_ascii_graphic(#[trigger] bytes[i])
}

pub open spec fn one_key_message() -> Seq<char> {
    "Provide exactly one Idempotency-Key header."@
}

pub open spec fn key_shape_message() -> Seq<char> {
    "Provide an Idempotency-Key of 1–128 visible ASCII characters; persist it before sending."@
}

/// The `Idempotency-Key` of a request, from its header values (each `None`
/// when the value is not text): exactly one value, of 1 to 128 visible ASCII bytes.
pub fn mutation_key(values: &Vec<Option<String>>) -> (r: Result<String, AppError>)
    ensures
        values.len() != 1 ==> (r matches Err(e) && e@ == bad_request_view(one_key_message())),
        values.len() == 1 ==> match values@[0] {
            Some(v) => if valid_key_bytes(utf8(v@)) {
                (r matches Ok(k) && k@ == v@)
            } else {
                (r matches Err(e) && e@ == bad_request_view(key_shape_message()))
            },
            None => (r matches Err(e) && e@ == bad_request_view(key_shape_message())),
        },
{
    if values.len() != 1 {
        return Err(AppError::bad_request("Provide exactly one Idempotency-Key header."));
    }
    match &values[0] {
        Some(v) => {
            let bytes = v.as_str().as_bytes();
            let mut ok = 1 <= bytes.len() && bytes.len() <= 128;
            let mut i: usize = 0;
            while ok && i < bytes.len()
                invariant
                    bytes@ == utf8(v@),
                    i <= bytes.len(),
                    ok ==> 1 <= bytes.len() <= 128,
                    ok ==> forall|j: int| 0 <= j < i ==> byte_is_ascii_graphic(#[trigger] bytes@[j]),
                    !ok ==> !valid_key_bytes(bytes@),
                decreases bytes.len() - i,
            {
                if !(0x21 <= bytes[i] && bytes[i] <= 0x7e) {
                    ok = false;
                }
                i = i + 1;
            }
            if ok {
                Ok(v.clone())
            } else {
                Err(
                    AppError::bad_request(
                        "Provide an Idempotency-Key of 1–128 visible ASCII characters; persist it before sending.",
                    ),
                )
            }
        },
        None => Err(
            AppError::bad_request(
                "Provide an Idempotency-Key of 1–128 visible ASCII characters; persist it before sending.",
            ),
        ),
    }
}

/// A stored mutation receipt: who sent which operation under which key, the
/// fingerprint of its input, its serialized result and when it was written.
pub struct Receipt {
    pub principal_id: String,
    pub operation: String,
    pub key: String,
    pub fingerprint: String,
    pub result_json: String,
    pub created_at: i64,
}

/// What a new request under a key that already has a stored receipt gets back.
pub enum ReceiptOutcome {
    /// No receipt: perform the mutation.
    Fresh,
    /// A receipt with the same fingerprint: answer with its stored result.
    Replay(String),
}

/// The parts of a receipt that decide a retry.
pub struct ReceiptView {
    pub fingerprint: Seq<char>,
    pub result_json: Seq<char>,
    pub created_at: i64,
}

impl View for Receipt {
    type V = ReceiptView;

    open spec fn view(&self) -> ReceiptView {
        ReceiptView {
            fingerprint: self.fingerprint@,
            result_json: self.result_json@,
            created_at: self.created_at,
        }
    }
}

/// The decision for a request, as plain values.
pub enum ReceiptDecision {
    Fresh,
    Replay(Seq<char>),
    Conflict,
    Expired,
}

pub open spec fn idempotency_conflict_message() -> Seq<char> {
    "This mutation key was already used with different input or session. Reconcile the original request."@
}

pub open spec fn receipt_expired_message() -> Seq<char> {
    "The operation was already processed, but its replay window expired. Inspect its record before starting a new operation."@
}

/// True when a receipt written at `created_at` can no longer be replayed at `now`.
pub open spec fn replay_expired(created_at: i64, now: i64) -> bool {
    now - created_at > RECEIPT_REPLAY_MS
}

/// No receipt means a fresh mutation; a different fingerprint conflicts; an
/// equal fingerprint replays the stored result unless the 30-day window passed.
pub open spec fn receipt_decision(stored: Option<ReceiptView>, fingerprint: Seq<char>, now: i64) -> ReceiptDecision {
    match stored {
        None => ReceiptDecision::Fresh,
        Some(s) => if s.fingerprint != fingerprint {
            ReceiptDecision::Conflict
        } else if replay_expired(s.created_at, now) {
            ReceiptDecision::Expired
        } else {
            ReceiptDecision::Replay(s.result_json)
        },
    }
}

/// Decides a request against the receipt stored for its principal, operation and key.
pub fn receipt_outcome(stored: Option<&Receipt>, fingerprint: &str, now: i64) -> (r: Result<
    ReceiptOutcome,
    AppError,
>)
    ensures
        match receipt_decision(
            match stored {
                Some(s) => Some(s@),
                None => None,
            },
            fingerprint@,
            now,
        ) {
            ReceiptDecision::Fresh => (r matches Ok(ReceiptOutcome::Fresh)),
            ReceiptDecision::Replay(result) => (r matches Ok(ReceiptOutcome::Replay(v)) && v@
                == result),
            ReceiptDecision::Conflict => (r matches Err(e) && e@ == conflict_view(
                "idempotency_conflict"@,
                idempotency_conflict_message(),
            )),
            ReceiptDecision::Expired => (r matches Err(e) && e@ == conflict_view(
                "idempotency_receipt_expired"@,
                receipt_expired_message(),
            )),
        },
{
    match stored {
        None => Ok(ReceiptOutcome::Fresh),
        Some(s) => {
            if !str_eq(s.fingerprint.as_str(), fingerprint) {
                return Err(
                    AppError::conflict(
                        "idempotency_conflict",
                        "This mutation key was already used with different input or session. Reconcile the original request.",
                    ),
                );
            }
            if (now as i128) - (s.created_at as i128) > RECEIPT_REPLAY_MS as i128 {
                return Err(
                    AppError::conflict(
                        "idempotency_receipt_expired",
                        "The operation was already processed, but its replay window expired. Inspect its record before starting a new operation.",
                    ),
                );
            }
            Ok(ReceiptOutcome::Replay(s.result_json.clone()))
        },
    }
}

/// The receipt `finish` writes for a completed mutation.
pub fn new_receipt(
    actor: &Actor,
    operation: &str,
    key: &str,
    fingerprint: &str,
    result_json: &str,
    now: i64,
) -> (r: Receipt)
    ensures
        r.principal_id@ == actor.id@,
        r.operation@ == operation@,
        r.key@ == key@,
        r@ == (ReceiptView { fingerprint: fingerprint@, result_json: result_json@, created_at: now }),
{
    Receipt {
        principal_id: actor.id.clone(),
        operation: operation.to_owned(),
        key: key.to_owned(),
        fingerprint: fingerprint.to_owned(),
        result_json: result_json.to_owned(),
        created_at: now,
    }
}

/// An audit event a mutation records.
pub struct EventRecord {
    pub project_id: Option<String>,
    pub actor_id: String,
    pub kind: String,
    pub record_id: String,
    pub data_json: String,
    pub created_at: i64,
}

/// An event as plain values: project, actor, kind, record, data and time.
pub open spec fn event_view(e: EventRecord) -> (
    Option<Seq<char>>,
    Seq<char>,
    Seq<char>,
    Seq<char>,
    Seq<char>,
    i64,
) {
    (
        match e.project_id {
            Some(p) => Some(p@),
            None => None,
        },
        e.actor_id@,
        e.kind@,
        e.record_id@,
        e.data_json@,
        e.created_at,
    )
}

/// The stored receipts and the event log that mutations write.
pub struct MutationLedger {
    pub receipts: Vec<Receipt>,
    pub events: Vec<EventRecord>,
}

/// A receipt as its key (principal, operation, key) and what decides a retry.
pub open spec fn receipts_view(v: Seq<Receipt>) -> Seq<((Seq<char>, Seq<char>, Seq<char>), ReceiptView)> {
    v.map_values(|r: Receipt| ((r.principal_id@, r.operation@, r.key@), r@))
}

pub open spec fn events_view(v: Seq<EventRecord>) -> Seq<
    (Option<Seq<char>>, Seq<char>, Seq<char>, Seq<char>, Seq<char>, i64),
> {
    v.map_values(|e: EventRecord| event_view(e))
}

/// The receipt stored for a principal, operation and key, if any (the latest written).
pub open spec fn stored_receipt(
    rs: Seq<((Seq<char>, Seq<char>, Seq<char>), ReceiptView)>,
    key: (Seq<char>, Seq<char>, Seq<char>),
) -> Option<ReceiptView>
    decreases rs.len(),
{
    if rs.len() == 0 {
        None
    } else if rs.last().0 == key {
        Some(rs.last().1)
    } else {
        stored_receipt(rs.drop_last(), key)
    }
}

impl MutationLedger {
    fn find(&self, principal: &str, operation: &str, key: &str) -> (r: Option<usize>)
        ensures
            match stored_receipt(receipts_view(self.receipts@), (principal@, operation@, key@)) {
                None => r is None,
                Some(v) => r matches Some(i) && i < self.receipts.len() && self.receipts@[i as int]@ == v,
            },
    {
        let ghost rs = receipts_view(self.receipts@);
        let ghost k = (principal@, operation@, key@);
        let mut found: Option<usize> = None;
        let mut i: usize = 0;
        while i < self.receipts.len()
            invariant
                i <= self.receipts.len(),
                rs == receipts_view(self.receipts@),
                k == (principal@, operation@, key@),
                match stored_receipt(rs.take(i as int), k) {
                    None => found is None,
                    Some(v) => found matches Some(j) && j < i && self.receipts@[j as int]@ == v,
                },
            decreases self.receipts.len() - i,
        {
            proof {
                assert(rs.take(i + 1).drop_last() =~= rs.take(i as int));
            }
            let r = &self.receipts[i];
            if str_eq(r.principal_id.as_str(), principal) && str_eq(r.operation.as_str(), operation)
                && str_eq(r.key.as_str(), key) {
                found = Some(i);
            }
            i = i + 1;
        }
        proof {
            assert(rs.take(self.receipts.len() as int) =~= rs);
        }
        found
    }

    /// Starts a mutation: decides the request against the receipt stored for the actor,
    /// the operation and the key.
    pub fn begin(&self, actor: &Actor, operation: &str, key: &str, fingerprint: &str, now: i64) -> (r:
        Result<ReceiptOutcome, AppError>)
        ensures
            match receipt_decision(
                stored_receipt(receipts_view(self.receipts@), (actor.id@, operation@, key@)),
                fingerprint@,
                now,
            ) {
                ReceiptDecision::Fresh => (r matches Ok(ReceiptOutcome::Fresh)),
                ReceiptDecision::Replay(result) => (r matches Ok(ReceiptOutcome::Replay(v)) && v@
                    == result),
                ReceiptDecision::Conflict => (r matches Err(e) && e@ == conflict_view(
                    "idempotency_conflict"@,
                    idempotency_conflict_message(),
                )),
                ReceiptDecision::Expired => (r matches Err(e) && e@ == conflict_view(
                    "idempotency_receipt_expired"@,
                    receipt_expired_message(),
                )),
            },
    {
        match self.find(actor.id.as_str(), operation, key) {
            None => receipt_outcome(None, fingerprint, now),
            Some(i) => receipt_outcome(Some(&self.receipts[i]), fingerprint, now),
        }
    }

    /// Completes a fresh mutation: stores its receipt (the result under the actor,
    /// operation and key) and one audit event of `kind` with empty data, and gives back the
    /// result. A key that already has a receipt is not written twice.
    pub fn finish(
        &mut self,
        actor: &Actor,
        operation: &str,
        key: &str,
        fingerprint: &str,
        result_json: &str,
        project: Option<&str>,
        kind: &str,
        record_id: &str,
        now: i64,
    ) -> (r: Result<String, AppError>)
        ensures
            stored_receipt(receipts_view(old(self).receipts@), (actor.id@, operation@, key@)) is Some
                ==> (r matches Err(e) && e@ == internal_view()) && receipts_view(
                final(self).receipts@,
            ) == receipts_view(old(self).receipts@) && events_view(final(self).events@)
                == events_view(old(self).events@),
            stored_receipt(receipts_view(old(self).receipts@), (actor.id@, operation@, key@)) is None
                ==> (r matches Ok(v) && v@ == result_json@) && receipts_view(final(self).receipts@)
                == receipts_view(old(self).receipts@).push(
                (
                    (actor.id@, operation@, key@),
                    ReceiptView { fingerprint: fingerprint@, result_json: result_json@, created_at: now },
                ),
            ) && events_view(final(self).events@) == events_view(old(self).events@).push(
                (
                    match project {
                        Some(p) => Some(p@),
                        None => None,
                    },
                    actor.id@,
                    kind@,
                    record_id@,
                    "{}"@,
                    now,
                ),
            ),
    {
        if self.find(actor.id.as_str(), operation, key).is_some() {
            return Err(AppError::internal());
        }
        let ghost rs = receipts_view(self.receipts@);
        let ghost es = events_view(self.events@);
        let receipt = new_receipt(actor, operation, key, fingerprint, result_json, now);
        self.receipts.push(receipt);
        let project_id = match project {
            Some(p) => Some(p.to_owned()),
            None => None,
        };
        self.events.push(
            EventRecord {
                project_id,
                actor_id: actor.id.clone(),
                kind: kind.to_owned(),
                record_id: record_id.to_owned(),
                data_json: "{}".to_owned(),
                created_at: now,
            },
        );
        proof {
            assert(receipts_view(self.receipts@) =~= rs.push(
                (
                    (actor.id@, operation@, key@),
                    ReceiptView { fingerprint: fingerprint@, result_json: result_json@, created_at: now },
                ),
            ));
            assert(events_view(self.events@) =~= es.push(
                (
                    match project {
                        Some(p) => Some(p@),
                        None => None,
                    },
                    actor.id@,
                    kind@,
                    record_id@,
                    "{}"@,
                    now,
                ),
            ));
        }
        Ok(result_json.to_owned())
    }
}

/// After a fresh mutation finishes, a retry under the same principal, operation and key
/// with the same input is answered with its result for 30 days; with another input it
/// conflicts.
pub proof fn law_finished_mutation_replays(
    rs: Seq<((Seq<char>, Seq<char>, Seq<char>), ReceiptView)>,
    key: (Seq<char>, Seq<char>, Seq<char>),
    fingerprint: Seq<char>,
    other: Seq<char>,
    result_json: Seq<char>,
    written_at: i64,
    retried_at: i64,
)
    requires
        fingerprint != other,
    ensures
        ({
            let after = rs.push(
                (key, ReceiptView { fingerprint, result_json, created_at: written_at }),
            );
            &&& written_at <= retried_at <= written_at + RECEIPT_REPLAY_MS ==> receipt_decision(
                stored_receipt(after, key),
                fingerprint,
                retried_at,
            ) == ReceiptDecision::Replay(result_json)
            &&& receipt_decision(stored_receipt(after, key), other, retried_at)
                == ReceiptDecision::Conflict
        }),
{
}

/// A retry with the same input within 30 days of the first request is answered
/// with exactly the result that request stored.
pub proof fn law_retry_replays_stored_result(
    fingerprint: Seq<char>,
    result_json: Seq<char>,
    written_at: i64,
    retried_at: i64,
)
    requires
        written_at <= retried_at <= written_at + RECEIPT_REPLAY_MS,
    ensures
        receipt_decision(
            Some(ReceiptView { fingerprint, result_json, created_at: written_at }),
            fingerprint,
            retried_at,
        ) == ReceiptDecision::Replay(result_json),
{
}

/// Reusing a key with a different input or session never performs or replays
/// anything: it always conflicts, at any time.
pub proof fn law_key_reuse_with_other_input_conflicts(
    stored: ReceiptView,
    fingerprint: Seq<char>,
    now: i64,
)
    requires
        stored.fingerprint != fingerprint,
    ensures
        receipt_decision(Some(stored), fingerprint, now) == ReceiptDecision::Conflict,
{
}

} // verus!
