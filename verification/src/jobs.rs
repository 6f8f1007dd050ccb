//! Producer observations of managed jobs, resource keys and reporter identity.
use vstd::prelude::*;
use vstd::string::StringSliceAdditionalSpecFns;

use crate::error::{auth_required_view, bad_request_view, conflict_view, forbidden_view, AppError, ErrorView};
use crate::ids::{uuid_canonical, uuid_parse};
use crate::text::{blank, byte_is_ascii_digit, byte_is_ascii_lower, byte_len, is_blank, str_eq, trim, trim_str, utf8_len};
use crate::validation::{bounded_message, bounded_ok, check_bounded};

verus! {

pub const REPORTER_LIFETIME_MS: i64 = 604_800_000;

/// Job text: at most `max` bytes, no NUL, nonempty when required.
pub fn bounded(value: &str, name: &str, max: usize, required: bool) -> (r: Result<(), AppError>)
    ensures
        r is Ok <==> bounded_ok(value@, max as nat, required),
        r matches Err(e) ==> e@ == bad_request_view(bounded_message(name@, max as nat, required)),
{
    check_bounded(value, name, max, required)
}

/// Requires `value` to parse as a UUID.
pub fn uuid(value: &str, name: &str) -> (r: Result<(), AppError>)
    ensures
        r is Ok <==> uuid_parse(value@) is Some,
        r matches Err(e) ==> e@ == bad_request_view(name@ + " must be a UUID."@),
{
    if uuid_canonical(value).is_none() {
        let mut message = name.to_owned();
        message.append(" must be a UUID.");
        return Err(AppError::with_message(400, "invalid_request", message));
    }
    Ok(())
}

/// Bytes of a canonical resource name.
pub open spec fn resource_key_byte(b: u8) -> bool {
    byte_is_ascii_lower(b) || byte_is_ascii_digit(b) || b == 0x2d || b == 0x5f || b == 0x2e || b
        == 0x3a || b == 0x2f
}

pub open spec fn resource_key_shape(v: Seq<char>) -> bool {
    trim(v) == v && forall|i: int|
        0 <= i < crate::text::utf8(v).len() ==> resource_key_byte(#[trigger] crate::text::utf8(v)[i])
}

/// A shared resource key: bounded text in canonical lowercase resource-name form.
pub fn resource_key(value: &str) -> (r: Result<(), AppError>)
    ensures
        !bounded_ok(value@, 255, true) ==> (r matches Err(e) && e@ == bad_request_view(
            bounded_message("key"@, 255, true),
        )),
        bounded_ok(value@, 255, true) ==> if resource_key_shape(value@) {
            r is Ok
        } else {
            (r matches Err(e) && e@ == bad_request_view(
                "key must be a canonical lowercase resource name using letters, digits, -, _, ., :, or /."@,
            ))
        },
{
    bounded(value, "key", 255, true)?;
    let mut ok = str_eq(trim_str(value), value);
    let bytes = value.as_bytes();
    let mut i: usize = 0;
    while ok && i < bytes.len()
        invariant
            bytes@ == value.spec_bytes(),
            i <= bytes.len(),
            ok ==> trim(value@) == value@,
            ok ==> forall|j: int| 0 <= j < i ==> resource_key_byte(#[trigger] bytes@[j]),
            !ok ==> !resource_key_shape(value@),
        decreases bytes.len() - i,
    {
        let b = bytes[i];
        if !((0x61 <= b && b <= 0x7a) || (0x30 <= b && b <= 0x39) || b == 0x2d || b == 0x5f || b
            == 0x2e || b == 0x3a || b == 0x2f) {
            proof {
                assert(!resource_key_byte(crate::text::utf8(value@)[i as int]));
            }
            ok = false;
        }
        i = i + 1;
    }
    if !ok {
        return Err(
            AppError::bad_request(
                "key must be a canonical lowercase resource name using letters, digits, -, _, ., :, or /.",
            ),
        );
    }
    Ok(())
}

/// The identity a job reporter authenticated as: its id and proof digest.
pub struct ReporterAuth {
    id: String,
    proof_hash: String,
}

impl ReporterAuth {
    pub fn new(id: String, proof_hash: String) -> (a: ReporterAuth)
        ensures
            a.id_view() == id@,
            a.proof_hash_view() == proof_hash@,
    {
        ReporterAuth { id, proof_hash }
    }

    pub closed spec fn id_view(&self) -> Seq<char> {
        self.id@
    }

    pub closed spec fn proof_hash_view(&self) -> Seq<char> {
        self.proof_hash@
    }

    pub fn id(&self) -> (r: &str)
        ensures
            r@ == self.id_view(),
    {
        self.id.as_str()
    }

    pub fn proof_hash(&self) -> (r: &str)
        ensures
            r@ == self.proof_hash_view(),
    {
        self.proof_hash.as_str()
    }
}

/// A reporter may only act on its own record.
pub fn require_reporter(auth: &ReporterAuth, id: &str) -> (r: Result<(), AppError>)
    ensures
        r is Ok <==> auth.id_view() == id@,
        r matches Err(e) ==> e@ == auth_required_view(),
{
    if !str_eq(auth.id(), id) {
        return Err(AppError::auth_required());
    }
    Ok(())
}

/// A listing page size: 50 by default, 1 to 200, and a cursor of at most 128 bytes.
pub fn page_limit(limit: Option<i64>, cursor: Option<&str>) -> (r: Result<i64, AppError>)
    ensures
        ({
            let n = match limit {
                Some(n) => n,
                None => 50,
            };
            let cursor_ok = match cursor {
                Some(c) => utf8_len(c@) <= 128,
                None => true,
            };
            if 1 <= n <= 200 && cursor_ok {
                r matches Ok(x) && x == n
            } else {
                (r matches Err(e) && e@ == bad_request_view(
                    "limit must be between 1 and 200 and cursor must be valid."@,
                ))
            }
        }),
{
    let n = match limit {
        Some(n) => n,
        None => 50,
    };
    let cursor_ok = match cursor {
        Some(c) => byte_len(c) <= 128,
        None => true,
    };
    if !(1 <= n && n <= 200) || !cursor_ok {
        return Err(AppError::bad_request("limit must be between 1 and 200 and cursor must be valid."));
    }
    Ok(n)
}

/// One producer observation of a job.
pub struct ObservationInput {
    pub sequence: i64,
    pub producer_id: String,
    pub state: String,
    pub pid: Option<i64>,
    pub process_started_at: Option<String>,
    pub exit_code: Option<i64>,
    pub inputs_unchanged: Option<bool>,
    pub summary: String,
}

pub open spec fn producer_state(s: Seq<char>) -> bool {
    s == "registered"@ || s == "running"@ || s == "succeeded"@ || s == "failed"@ || s
        == "unknown"@ || s == "not_started"@
}

pub open spec fn observation_basics_message() -> Seq<char> {
    "Use a positive sequence, valid producer state, and a positive PID when present."@
}

/// The first rule an observation breaks, or `None` when it is acceptable.
pub open spec fn observation_error(input: ObservationInput) -> Option<ErrorView> {
    let state = input.state@;
    if input.sequence <= 0 || !producer_state(state) || (input.pid matches Some(p) && p <= 0) {
        Some(bad_request_view(observation_basics_message()))
    } else if uuid_parse(input.producer_id@) is None {
        Some(bad_request_view("producer_id must be a UUID."@))
    } else if !bounded_ok(input.summary@, 8192, false) {
        Some(bad_request_view(bounded_message("summary"@, 8192, false)))
    } else if input.process_started_at matches Some(v) && !bounded_ok(v@, 128, true) {
        Some(bad_request_view(bounded_message("process_started_at"@, 128, true)))
    } else if state == "succeeded"@ && (input.exit_code != Some(0i64)
        || input.inputs_unchanged is None) {
        Some(
            bad_request_view(
                "A succeeded observation requires exit_code 0 and a final input-stability result."@,
            ),
        )
    } else if state == "failed"@ && (input.exit_code is None || input.inputs_unchanged is None) {
        Some(
            bad_request_view(
                "A failed observation requires an exit_code and a final input-stability result."@,
            ),
        )
    } else if state == "not_started"@ && (is_blank(input.summary@) || input.pid is Some
        || input.process_started_at is Some || input.exit_code is Some) {
        Some(
            bad_request_view(
                "not_started requires an explicit local failure summary and no process metadata."@,
            ),
        )
    } else if (state == "registered"@ || state == "running"@ || state == "unknown"@)
        && input.exit_code is Some {
        Some(bad_request_view("Only succeeded or failed observations include an exit_code."@))
    } else {
        None
    }
}

pub fn validate_observation(input: &ObservationInput) -> (r: Result<(), AppError>)
    ensures
        match observation_error(*input) {
            None => r is Ok,
            Some(v) => (r matches Err(e) && e@ == v),
        },
{
    let state = input.state.as_str();
    let known = str_eq(state, "registered") || str_eq(state, "running") || str_eq(
        state,
        "succeeded",
    ) || str_eq(state, "failed") || str_eq(state, "unknown") || str_eq(state, "not_started");
    let bad_pid = match input.pid {
        Some(p) => p <= 0,
        None => false,
    };
    if input.sequence <= 0 || !known || bad_pid {
        return Err(
            AppError::bad_request(
                "Use a positive sequence, valid producer state, and a positive PID when present.",
            ),
        );
    }
    proof {
        reveal_strlit("registered");
        reveal_strlit("running");
        reveal_strlit("succeeded");
        reveal_strlit("failed");
        reveal_strlit("unknown");
        reveal_strlit("not_started");
        reveal_strlit("producer_id");
        reveal_strlit(" must be a UUID.");
        reveal_strlit("producer_id must be a UUID.");
        assert("producer_id"@ + " must be a UUID."@ =~= "producer_id must be a UUID."@);
        assert("succeeded"@.len() != "not_started"@.len());
        assert("failed"@.len() != "not_started"@.len());
    }
    uuid(input.producer_id.as_str(), "producer_id")?;
    bounded(input.summary.as_str(), "summary", 8192, false)?;
    if let Some(v) = &input.process_started_at {
        bounded(v.as_str(), "process_started_at", 128, true)?;
    }
    if str_eq(state, "succeeded") {
        let exit_zero = match input.exit_code {
            Some(c) => c == 0,
            None => false,
        };
        if !exit_zero || input.inputs_unchanged.is_none() {
            return Err(
                AppError::bad_request(
                    "A succeeded observation requires exit_code 0 and a final input-stability result.",
                ),
            );
        }
    } else if str_eq(state, "failed") {
        if input.exit_code.is_none() || input.inputs_unchanged.is_none() {
            return Err(
                AppError::bad_request(
                    "A failed observation requires an exit_code and a final input-stability result.",
                ),
            );
        }
    } else if str_eq(state, "not_started") {
        if blank(input.summary.as_str()) || input.pid.is_some() || input.process_started_at.is_some()
            || input.exit_code.is_some() {
            return Err(
                AppError::bad_request(
                    "not_started requires an explicit local failure summary and no process metadata.",
                ),
            );
        }
    } else if input.exit_code.is_some() {
        return Err(
            AppError::bad_request("Only succeeded or failed observations include an exit_code."),
        );
    }
    Ok(())
}


/// A producer registration, as submitted.
pub struct JobInput {
    pub job_id: String,
    pub producer_id: String,
    pub runner_instance_id: String,
    pub reservation_id: String,
    pub reporter_id: String,
    pub workstation_id: String,
    pub label: String,
    pub source_revision: String,
    pub source_tree: String,
    pub reporter_proof: String,
    pub renew_for_seconds: i64,
    pub generation: i64,
}

pub open spec fn workstation_char(c: char) -> bool {
    crate::text::is_ascii_alnum(c) || c == '-' || c == '_' || c == '.'
}

/// A workstation id: 1 to 128 bytes of letters, digits, `-`, `_` and `.`.
pub open spec fn workstation_ok(v: Seq<char>) -> bool {
    v.len() > 0 && utf8_len(v) <= 128 && forall|i: int|
        0 <= i < v.len() ==> workstation_char(#[trigger] v[i])
}

pub open spec fn uuid_error(v: Seq<char>, name: Seq<char>) -> Option<ErrorView> {
    if uuid_parse(v) is None {
        Some(bad_request_view(name + " must be a UUID."@))
    } else {
        None
    }
}

pub open spec fn hex_digit_char(c: char) -> bool {
    ('0' <= c && c <= '9') || ('a' <= c && c <= 'f') || ('A' <= c && c <= 'F')
}

/// The first rule a producer registration breaks, or `None`.
pub open spec fn job_input_error(input: JobInput) -> Option<ErrorView> {
    if uuid_error(input.job_id@, "job_id"@) is Some {
        uuid_error(input.job_id@, "job_id"@)
    } else if uuid_error(input.producer_id@, "producer_id"@) is Some {
        uuid_error(input.producer_id@, "producer_id"@)
    } else if uuid_error(input.runner_instance_id@, "runner_instance_id"@) is Some {
        uuid_error(input.runner_instance_id@, "runner_instance_id"@)
    } else if uuid_error(input.reservation_id@, "reservation_id"@) is Some {
        uuid_error(input.reservation_id@, "reservation_id"@)
    } else if uuid_error(input.reporter_id@, "reporter_id"@) is Some {
        uuid_error(input.reporter_id@, "reporter_id"@)
    } else if !workstation_ok(input.workstation_id@) {
        Some(bad_request_view("Use the workstation identity registered with this harness session."@))
    } else if !bounded_ok(input.label@, 255, true) {
        Some(bad_request_view(bounded_message("label"@, 255, true)))
    } else if !bounded_ok(input.source_revision@, 255, true) {
        Some(bad_request_view(bounded_message("source_revision"@, 255, true)))
    } else if !bounded_ok(input.source_tree@, 255, true) {
        Some(bad_request_view(bounded_message("source_tree"@, 255, true)))
    } else if crate::crypto::hex_decoded(crate::text::utf8(input.reporter_proof@)) is None {
        Some(bad_request_view("reporter_proof must encode 32 random bytes as hex."@))
    } else if crate::crypto::hex_decoded(crate::text::utf8(input.reporter_proof@))->Some_0.len() != 32
        || !(forall|i: int| 0 <= i < input.reporter_proof@.len() ==> hex_digit_char(
        #[trigger] input.reporter_proof@[i],
    )) || !(0 <= input.renew_for_seconds <= 3600) {
        Some(
            bad_request_view(
                "Use a 32-byte hexadecimal reporter_proof and renew_for_seconds between 0 and 3600."@,
            ),
        )
    } else {
        None
    }
}

fn check_uuid(value: &str, name: &str) -> (r: Result<(), AppError>)
    ensures
        match uuid_error(value@, name@) {
            None => r is Ok,
            Some(v) => (r matches Err(e) && e@ == v),
        },
{
    uuid(value, name)
}

fn all_chars(v: &Vec<char>, hex: bool) -> (r: bool)
    ensures
        hex ==> r == (forall|i: int| 0 <= i < v@.len() ==> hex_digit_char(#[trigger] v@[i])),
        !hex ==> r == (forall|i: int| 0 <= i < v@.len() ==> workstation_char(#[trigger] v@[i])),
{
    let mut i: usize = 0;
    while i < v.len()
        invariant
            i <= v.len(),
            hex ==> forall|k: int| 0 <= k < i ==> hex_digit_char(#[trigger] v@[k]),
            !hex ==> forall|k: int| 0 <= k < i ==> workstation_char(#[trigger] v@[k]),
        decreases v.len() - i,
    {
        let c = v[i];
        let ok = if hex {
            ('0' <= c && c <= '9') || ('a' <= c && c <= 'f') || ('A' <= c && c <= 'F')
        } else {
            ('0' <= c && c <= '9') || ('a' <= c && c <= 'z') || ('A' <= c && c <= 'Z') || c == '-'
                || c == '_' || c == '.'
        };
        if !ok {
            assert(hex ==> !hex_digit_char(v@[i as int]));
            assert(!hex ==> !workstation_char(v@[i as int]));
            return false;
        }
        i = i + 1;
    }
    true
}

pub fn validate_job_input(input: &JobInput) -> (r: Result<(), AppError>)
    ensures
        match job_input_error(*input) {
            None => r is Ok,
            Some(v) => (r matches Err(e) && e@ == v),
        },
{
    check_uuid(input.job_id.as_str(), "job_id")?;
    check_uuid(input.producer_id.as_str(), "producer_id")?;
    check_uuid(input.runner_instance_id.as_str(), "runner_instance_id")?;
    check_uuid(input.reservation_id.as_str(), "reservation_id")?;
    check_uuid(input.reporter_id.as_str(), "reporter_id")?;
    let ws = crate::text::chars_of(input.workstation_id.as_str());
    if ws.len() == 0 || byte_len(input.workstation_id.as_str()) > 128 || !all_chars(&ws, false) {
        return Err(
            AppError::bad_request("Use the workstation identity registered with this harness session."),
        );
    }
    check_bounded(input.label.as_str(), "label", 255, true)?;
    check_bounded(input.source_revision.as_str(), "source_revision", 255, true)?;
    check_bounded(input.source_tree.as_str(), "source_tree", 255, true)?;
    let proof = match crate::crypto::hex_decode(input.reporter_proof.as_str()) {
        None => {
            return Err(AppError::bad_request("reporter_proof must encode 32 random bytes as hex."));
        },
        Some(p) => p,
    };
    let hex_text = crate::text::chars_of(input.reporter_proof.as_str());
    if proof.len() != 32 || !all_chars(&hex_text, true) || !(0 <= input.renew_for_seconds
        && input.renew_for_seconds <= 3600) {
        return Err(
            AppError::bad_request(
                "Use a 32-byte hexadecimal reporter_proof and renew_for_seconds between 0 and 3600.",
            ),
        );
    }
    Ok(())
}

/// What the service knows when a producer is registered for an attempt.
pub struct ProducerFacts {
    pub attempt_mode: String,
    pub actor_kind: String,
    /// The workstation of the attempt's registered checkout, if any.
    pub checkout_workstation: Option<String>,
    pub session_workstation: String,
    pub reservation_held: bool,
    pub identity_in_use: bool,
    pub has_credential: bool,
}

/// Why the producer may not be registered, or `None`.
pub open spec fn producer_refusal(f: ProducerFacts, workstation: Seq<char>) -> Option<ErrorView> {
    if f.attempt_mode@ != "work"@ || f.actor_kind@ != "agent"@ {
        Some(forbidden_view("A live agent work attempt is required to register a producer."@))
    } else if f.checkout_workstation is None {
        Some(
            conflict_view(
                "checkout_required"@,
                "Register the clean checkout before registering a producer."@,
            ),
        )
    } else if f.checkout_workstation->Some_0@ != workstation || f.session_workstation@ != workstation {
        Some(
            forbidden_view(
                "The producer and checkout must use this session's registered workstation."@,
            ),
        )
    } else if !f.reservation_held {
        Some(
            conflict_view(
                "reservation_required"@,
                "Register the producer against this attempt's held resource set."@,
            ),
        )
    } else if f.identity_in_use {
        Some(
            conflict_view(
                "producer_registered"@,
                "A job, producer, or reporter already uses this identity. Inspect it; do not relaunch."@,
            ),
        )
    } else if !f.has_credential {
        Some(forbidden_view("Reporter credentials require an agent parent."@))
    } else {
        None
    }
}

pub fn check_producer(facts: &ProducerFacts, workstation: &str) -> (r: Result<(), AppError>)
    ensures
        match producer_refusal(*facts, workstation@) {
            None => r is Ok,
            Some(v) => (r matches Err(e) && e@ == v),
        },
{
    if !str_eq(facts.attempt_mode.as_str(), "work") || !str_eq(facts.actor_kind.as_str(), "agent") {
        return Err(
            AppError::forbidden("A live agent work attempt is required to register a producer."),
        );
    }
    let checkout = match &facts.checkout_workstation {
        None => {
            return Err(
                AppError::conflict(
                    "checkout_required",
                    "Register the clean checkout before registering a producer.",
                ),
            );
        },
        Some(c) => c,
    };
    if !str_eq(checkout.as_str(), workstation) || !str_eq(
        facts.session_workstation.as_str(),
        workstation,
    ) {
        return Err(
            AppError::forbidden(
                "The producer and checkout must use this session's registered workstation.",
            ),
        );
    }
    if !facts.reservation_held {
        return Err(
            AppError::conflict(
                "reservation_required",
                "Register the producer against this attempt's held resource set.",
            ),
        );
    }
    if facts.identity_in_use {
        return Err(
            AppError::conflict(
                "producer_registered",
                "A job, producer, or reporter already uses this identity. Inspect it; do not relaunch.",
            ),
        );
    }
    if !facts.has_credential {
        return Err(AppError::forbidden("Reporter credentials require an agent parent."));
    }
    Ok(())
}

/// How often a new reporter renews: never when it may not renew, else a third of its
/// renewal window in seconds, between 1 and 60.
pub fn reporter_renew_after(renew_for_seconds: i64) -> (r: i64)
    requires
        0 <= renew_for_seconds <= 3600,
    ensures
        renew_for_seconds == 0 ==> r == 0,
        renew_for_seconds > 0 ==> r == (if renew_for_seconds / 3 < 1 {
            1
        } else if renew_for_seconds / 3 > 60 {
            60
        } else {
            renew_for_seconds / 3
        }),
{
    if renew_for_seconds == 0 {
        return 0;
    }
    let third = renew_for_seconds / 3;
    if third < 1 {
        1
    } else if third > 60 {
        60
    } else {
        third
    }
}

/// A reporter's renewal extends the lease to `now` plus the project lease, but never past
/// the reporter's renewal window, and never shortens it.
pub open spec fn renewed_expiry(current: int, now: int, lease_seconds: int, renew_until: int) -> int {
    let extension = if now + lease_seconds * 1000 < renew_until {
        now + lease_seconds * 1000
    } else {
        renew_until
    };
    if current > extension {
        current
    } else {
        extension
    }
}

pub fn reporter_extension(current: i64, now: i64, lease_seconds: i64, renew_until: i64) -> (r: i64)
    requires
        i64::MIN <= lease_seconds * 1000 <= i64::MAX,
        i64::MIN <= now + lease_seconds * 1000 <= i64::MAX,
    ensures
        r == renewed_expiry(current as int, now as int, lease_seconds as int, renew_until as int),
{
    let proposed = now + lease_seconds * 1000;
    let extension = if proposed < renew_until {
        proposed
    } else {
        renew_until
    };
    if current > extension {
        current
    } else {
        extension
    }
}

/// A reporter's renewal never shortens the lease, and never carries it past the later of
/// its current expiry and the reporter's renewal window.
pub proof fn law_reporter_renewal_bounded(current: int, now: int, lease_seconds: int, renew_until: int)
    ensures
        renewed_expiry(current, now, lease_seconds, renew_until) >= current,
        renewed_expiry(current, now, lease_seconds, renew_until) <= if current > renew_until {
            current
        } else {
            renew_until
        },
{
}

/// A job's record as observations update it.
pub struct JobRecord {
    pub producer_id: String,
    pub state: String,
    pub last_sequence: i64,
}

/// What a reporter's observation leads to.
pub enum ObservationOutcome {
    /// The same observation was already recorded; its stored result is replayed.
    Replay,
    /// The observation is recorded and becomes the job's state.
    Record,
}

pub open spec fn terminal_state(s: Seq<char>) -> bool {
    s == "succeeded"@ || s == "failed"@ || s == "not_started"@
}

/// What an observation that passed validation leads to: a replay of the identical earlier
/// observation at that sequence, a refusal, or a new record. `same_as_recorded` says
/// whether an observation stored at that sequence has the same request digest;
/// `launched` whether earlier evidence shows the producer started.
pub open spec fn observation_outcome(
    job: JobRecord,
    producer_id: Seq<char>,
    sequence: i64,
    state: Seq<char>,
    same_as_recorded: bool,
    launched: bool,
) -> Result<ObservationOutcome, ErrorView> {
    if job.producer_id@ != producer_id {
        Err(
            conflict_view(
                "producer_mismatch"@,
                "This reporter is scoped to a different producer identity."@,
            ),
        )
    } else if sequence <= job.last_sequence {
        if same_as_recorded {
            Ok(ObservationOutcome::Replay)
        } else {
            Err(
                conflict_view(
                    "observation_sequence_conflict"@,
                    "This observation sequence is stale or was already used with different data."@,
                ),
            )
        }
    } else if terminal_state(job.state@) {
        Err(conflict_view("job_terminal"@, "A terminal producer result cannot be overwritten."@))
    } else if state == "not_started"@ && launched {
        Err(
            conflict_view(
                "job_already_launched"@,
                "not_started cannot replace evidence that the producer launched."@,
            ),
        )
    } else if state == "registered"@ && job.last_sequence > 0 {
        Err(
            conflict_view(
                "job_state_regression"@,
                "A producer cannot return to registered after later observations."@,
            ),
        )
    } else {
        Ok(ObservationOutcome::Record)
    }
}

pub fn decide_observation(
    job: &JobRecord,
    producer_id: &str,
    sequence: i64,
    state: &str,
    same_as_recorded: bool,
    launched: bool,
) -> (r: Result<ObservationOutcome, AppError>)
    ensures
        match observation_outcome(*job, producer_id@, sequence, state@, same_as_recorded, launched) {
            Ok(ObservationOutcome::Replay) => (r matches Ok(ObservationOutcome::Replay)),
            Ok(ObservationOutcome::Record) => (r matches Ok(ObservationOutcome::Record)),
            Err(v) => (r matches Err(e) && e@ == v),
        },
{
    if !str_eq(job.producer_id.as_str(), producer_id) {
        return Err(
            AppError::conflict(
                "producer_mismatch",
                "This reporter is scoped to a different producer identity.",
            ),
        );
    }
    if sequence <= job.last_sequence {
        if same_as_recorded {
            return Ok(ObservationOutcome::Replay);
        }
        return Err(
            AppError::conflict(
                "observation_sequence_conflict",
                "This observation sequence is stale or was already used with different data.",
            ),
        );
    }
    let current = job.state.as_str();
    if str_eq(current, "succeeded") || str_eq(current, "failed") || str_eq(current, "not_started") {
        return Err(
            AppError::conflict("job_terminal", "A terminal producer result cannot be overwritten."),
        );
    }
    if str_eq(state, "not_started") && launched {
        return Err(
            AppError::conflict(
                "job_already_launched",
                "not_started cannot replace evidence that the producer launched.",
            ),
        );
    }
    if str_eq(state, "registered") && job.last_sequence > 0 {
        return Err(
            AppError::conflict(
                "job_state_regression",
                "A producer cannot return to registered after later observations.",
            ),
        );
    }
    Ok(ObservationOutcome::Record)
}

/// A job as the service records it: its identity and progress, and the fields of the
/// latest recorded observation.
pub struct JobStatus {
    pub record: JobRecord,
    pub last_observed_at: Option<i64>,
    pub pid: Option<i64>,
    pub process_started_at: Option<String>,
    pub exit_code: Option<i64>,
    pub inputs_unchanged: Option<bool>,
    pub summary: String,
}

/// A job's recorded fields as plain values.
pub struct JobStatusView {
    pub producer_id: Seq<char>,
    pub state: Seq<char>,
    pub last_sequence: i64,
    pub last_observed_at: Option<i64>,
    pub pid: Option<i64>,
    pub process_started_at: Option<Seq<char>>,
    pub exit_code: Option<i64>,
    pub inputs_unchanged: Option<bool>,
    pub summary: Seq<char>,
}

impl View for JobStatus {
    type V = JobStatusView;

    open spec fn view(&self) -> JobStatusView {
        JobStatusView {
            producer_id: self.record.producer_id@,
            state: self.record.state@,
            last_sequence: self.record.last_sequence,
            last_observed_at: self.last_observed_at,
            pid: self.pid,
            process_started_at: match self.process_started_at {
                Some(t) => Some(t@),
                None => None,
            },
            exit_code: self.exit_code,
            inputs_unchanged: self.inputs_unchanged,
            summary: self.summary@,
        }
    }
}

/// The job after a recorded observation: its state, sequence, time and process fields are
/// the observation's; its producer stays.
pub open spec fn observed_status(old: JobStatusView, input: ObservationInput, now: i64) -> JobStatusView {
    JobStatusView {
        producer_id: old.producer_id,
        state: input.state@,
        last_sequence: input.sequence,
        last_observed_at: Some(now),
        pid: input.pid,
        process_started_at: match input.process_started_at {
            Some(t) => Some(t@),
            None => None,
        },
        exit_code: input.exit_code,
        inputs_unchanged: input.inputs_unchanged,
        summary: input.summary@,
    }
}

/// Applies a validated observation to its job: a replay or a refusal leaves the job as it
/// was; a recorded observation becomes the job's state.
pub fn apply_observation(
    job: &mut JobStatus,
    input: &ObservationInput,
    same_as_recorded: bool,
    launched: bool,
    now: i64,
) -> (r: Result<ObservationOutcome, AppError>)
    ensures
        match observation_outcome(
            old(job).record,
            input.producer_id@,
            input.sequence,
            input.state@,
            same_as_recorded,
            launched,
        ) {
            Ok(ObservationOutcome::Replay) => (r matches Ok(ObservationOutcome::Replay)) && final(job)@
                == old(job)@,
            Ok(ObservationOutcome::Record) => (r matches Ok(ObservationOutcome::Record)) && final(job)@
                == observed_status(old(job)@, *input, now),
            Err(v) => (r matches Err(e) && e@ == v) && final(job)@ == old(job)@,
        },
{
    let outcome = decide_observation(
        &job.record,
        input.producer_id.as_str(),
        input.sequence,
        input.state.as_str(),
        same_as_recorded,
        launched,
    );
    match outcome {
        Ok(ObservationOutcome::Record) => {
            job.record.state = input.state.clone();
            job.record.last_sequence = input.sequence;
            job.last_observed_at = Some(now);
            job.pid = input.pid;
            job.process_started_at = match &input.process_started_at {
                Some(t) => Some(t.clone()),
                None => None,
            };
            job.exit_code = input.exit_code;
            job.inputs_unchanged = input.inputs_unchanged;
            job.summary = input.summary.clone();
            Ok(ObservationOutcome::Record)
        },
        other => other,
    }
}

/// A job's sequence only grows and a terminal result stays: whatever an observation
/// brings, the job after it has a sequence at least as large, and a terminal job is left
/// as it was.
pub proof fn law_observations_never_rewind_a_job(
    old: JobStatusView,
    record: JobRecord,
    input: ObservationInput,
    same_as_recorded: bool,
    launched: bool,
    now: i64,
)
    requires
        record.producer_id@ == old.producer_id && record.state@ == old.state && record.last_sequence
            == old.last_sequence,
    ensures
        observation_outcome(record, input.producer_id@, input.sequence, input.state@, same_as_recorded, launched)
            matches Ok(ObservationOutcome::Record) ==> observed_status(old, input, now).last_sequence
            > old.last_sequence && !terminal_state(old.state),
{
}

/// A recorded observation only moves a job forward: its sequence grows, a terminal result
/// is never replaced, and `registered` never follows a later observation.
pub proof fn law_recorded_observations_move_forward(
    job: JobRecord,
    producer_id: Seq<char>,
    sequence: i64,
    state: Seq<char>,
    same_as_recorded: bool,
    launched: bool,
)
    requires
        observation_outcome(job, producer_id, sequence, state, same_as_recorded, launched) matches Ok(
            ObservationOutcome::Record,
        ),
    ensures
        sequence > job.last_sequence,
        !terminal_state(job.state@),
        job.producer_id@ == producer_id,
        state == "registered"@ ==> job.last_sequence <= 0,
        state == "not_started"@ ==> !launched,
{
}
/// A reporter renews its attempt's lease only for its own generation, before its renewal
/// deadline, and while its attempt, reservation and session still qualify (`qualifies`).
pub open spec fn reporter_renewal_ok(
    generation: i64,
    requested_generation: i64,
    renew_until: i64,
    now: i64,
    qualifies: bool,
) -> bool {
    generation == requested_generation && renew_until > now && qualifies
}

pub fn check_reporter_renewal(
    generation: i64,
    requested_generation: i64,
    renew_until: i64,
    now: i64,
    qualifies: bool,
) -> (r: Result<(), AppError>)
    ensures
        r is Ok <==> reporter_renewal_ok(generation, requested_generation, renew_until, now, qualifies),
        r matches Err(e) ==> e@ == conflict_view(
            "reporter_renewal_expired"@,
            "This reporter cannot renew task ownership. Continue observations without extending the lease."@,
        ),
{
    if generation != requested_generation || renew_until <= now || !qualifies {
        return Err(
            AppError::conflict(
                "reporter_renewal_expired",
                "This reporter cannot renew task ownership. Continue observations without extending the lease.",
            ),
        );
    }
    Ok(())
}

/// The refusal while a task still has held reservations or unfinished, unreconciled jobs,
/// with both counts as details.
pub open spec fn unquiet_view(holds: i64, jobs: i64) -> ErrorView {
    ErrorView {
        details: seq![
            ("held_reservations"@, crate::error::DetailValueView::Number(holds as int)),
            ("nonterminal_jobs"@, crate::error::DetailValueView::Number(jobs as int)),
        ],
        ..conflict_view(
            "attempt_evidence_unresolved"@,
            "Resource holds or producer observations still require inspection and resolution."@,
        )
    }
}

pub fn check_quiescent(holds: i64, jobs: i64) -> (r: Result<(), AppError>)
    ensures
        r is Ok <==> holds <= 0 && jobs <= 0,
        r matches Err(e) ==> e@ == unquiet_view(holds, jobs),
{
    if holds > 0 || jobs > 0 {
        let mut details = Vec::new();
        details.push(crate::error::Detail::number("held_reservations", holds));
        details.push(crate::error::Detail::number("nonterminal_jobs", jobs));
        let e = AppError::conflict(
            "attempt_evidence_unresolved",
            "Resource holds or producer observations still require inspection and resolution.",
        ).with_details(details);
        assert(e@.details =~= unquiet_view(holds, jobs).details);
        return Err(e);
    }
    Ok(())
}

/// What a reporter token `Bearer acr_ID.PROOF` carries: a UUID id and, for a proof of 32
/// bytes in hex, the proof's digest.
pub open spec fn reporter_token(header: Seq<char>) -> Option<(Seq<char>, Seq<char>)> {
    if !crate::text::has_prefix(header, "Bearer acr_"@) {
        None
    } else {
        let rest = header.subrange(11, header.len() as int);
        match crate::text::first_index(rest, '.') {
            None => None,
            Some(k) => {
                let id = rest.subrange(0, k);
                let proof = rest.subrange(k + 1, rest.len() as int);
                if uuid_parse(id) is Some && (crate::crypto::hex_decoded(crate::text::utf8(proof)) matches Some(
                    b,
                ) && b.len() == 32) {
                    Some((id, crate::crypto::text_digest(proof)))
                } else {
                    None
                }
            },
        }
    }
}

/// A reporter authenticates on reporter paths only, with one reporter token and no cookie,
/// session or proof header.
pub open spec fn reporter_credential_of(
    path: Seq<char>,
    cookie_present: bool,
    session_present: bool,
    proof_present: bool,
    authorization: Seq<Option<Seq<char>>>,
) -> Option<(Seq<char>, Seq<char>)> {
    if !crate::text::has_prefix(path, "/api/v1/reporters/"@) || cookie_present || session_present
        || proof_present {
        None
    } else {
        match crate::auth::single_header(authorization) {
            Some(Some(v)) => reporter_token(v),
            _ => None,
        }
    }
}

pub fn reporter_credential(
    path: &str,
    cookie_present: bool,
    session_present: bool,
    proof_present: bool,
    authorization: &Vec<Option<String>>,
) -> (r: Result<ReporterAuth, AppError>)
    ensures
        match reporter_credential_of(
            path@,
            cookie_present,
            session_present,
            proof_present,
            crate::auth::header_texts(authorization@),
        ) {
            Some((id, hash)) => (r matches Ok(a) && a.id_view() == id && a.proof_hash_view() == hash),
            None => (r matches Err(e) && e@ == auth_required_view()),
        },
{
    if !crate::text::starts_with(path, "/api/v1/reporters/") || cookie_present || session_present
        || proof_present {
        return Err(AppError::auth_required());
    }
    let value = match crate::auth::one_header(authorization) {
        Ok(Some(v)) => v,
        _ => {
            return Err(AppError::auth_required());
        },
    };
    if !crate::text::starts_with(value.as_str(), "Bearer acr_") {
        return Err(AppError::auth_required());
    }
    let chars = crate::text::chars_of(value.as_str());
    proof {
        reveal_strlit("Bearer acr_");
        assert("Bearer acr_"@.len() == 11);
    }
    let rest = crate::text::slice_chars(&chars, 11, chars.len());
    let k = match crate::text::find_char(&rest, '.') {
        Some(k) => k,
        None => {
            return Err(AppError::auth_required());
        },
    };
    proof {
        crate::text::lemma_first_index(rest@, '.');
    }
    let id = crate::text::string_from_chars(&crate::text::slice_chars(&rest, 0, k));
    let proof_text = crate::text::string_from_chars(&crate::text::slice_chars(&rest, k + 1, rest.len()));
    if uuid_canonical(id.as_str()).is_none() {
        return Err(AppError::auth_required());
    }
    let long_enough = match crate::crypto::hex_decode(proof_text.as_str()) {
        Some(b) => b.len() == 32,
        None => false,
    };
    if !long_enough {
        return Err(AppError::auth_required());
    }
    let hash = crate::crypto::digest(proof_text.as_str());
    Ok(ReporterAuth::new(id, hash))
}

} // verus!
