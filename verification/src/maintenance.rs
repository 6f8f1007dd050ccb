//! Bounded host-local payload retention: its options, the clock gate for writes, the
//! receipt cutoff, and the tally that decides whether another batch runs.
use vstd::prelude::*;

verus! {

pub const DEFAULT_MAINTENANCE_BATCH_SIZE: usize = 500;

pub const DEFAULT_MAINTENANCE_MAX_BATCHES: usize = 20;

pub const MAX_MAINTENANCE_BATCH_SIZE: usize = 1000;

pub const MAX_MAINTENANCE_BATCHES: usize = 100;

pub const RECEIPT_RESULT_RETENTION_DAYS: i64 = 30;

pub const DAY_MS: i64 = 86_400_000;

/// How much one maintenance run may do.
#[derive(Clone, Copy)]
pub struct MaintenanceOptions {
    pub batch_size: usize,
    pub max_batches: usize,
}

impl Default for MaintenanceOptions {
    fn default() -> (r: Self)
        ensures
            r.batch_size == DEFAULT_MAINTENANCE_BATCH_SIZE,
            r.max_batches == DEFAULT_MAINTENANCE_MAX_BATCHES,
    {
        MaintenanceOptions {
            batch_size: DEFAULT_MAINTENANCE_BATCH_SIZE,
            max_batches: DEFAULT_MAINTENANCE_MAX_BATCHES,
        }
    }
}

/// Batch size 1 to 1000 and 1 to 100 batches; the message names the first bound broken.
pub fn validate_options(options: MaintenanceOptions) -> (r: Result<(), String>)
    ensures
        !(1 <= options.batch_size <= MAX_MAINTENANCE_BATCH_SIZE) ==> (r matches Err(m) && m@
            == "maintenance batch_size must be between 1 and 1000"@),
        (1 <= options.batch_size <= MAX_MAINTENANCE_BATCH_SIZE) && !(1 <= options.max_batches
            <= MAX_MAINTENANCE_BATCHES) ==> (r matches Err(m) && m@
            == "maintenance max_batches must be between 1 and 100"@),
        (1 <= options.batch_size <= MAX_MAINTENANCE_BATCH_SIZE) && (1 <= options.max_batches
            <= MAX_MAINTENANCE_BATCHES) ==> r is Ok,
{
    if !(1 <= options.batch_size && options.batch_size <= MAX_MAINTENANCE_BATCH_SIZE) {
        return Err("maintenance batch_size must be between 1 and 1000".to_string());
    }
    if !(1 <= options.max_batches && options.max_batches <= MAX_MAINTENANCE_BATCHES) {
        return Err("maintenance max_batches must be between 1 and 100".to_string());
    }
    Ok(())
}

/// A reading of the service clock taken inside a write transaction.
#[derive(Clone, Copy)]
pub struct ClockSample {
    pub now: i64,
    /// This reading found the host clock behind the last one.
    pub incident_detected: bool,
    /// An earlier clock incident has not been reconciled.
    pub incident_active: bool,
}

/// Storage maintenance writes only while no clock incident is active.
pub fn require_safe_clock_for_write(sample: &ClockSample) -> (r: Result<(), String>)
    ensures
        r is Ok <==> !sample.incident_active,
        r matches Err(m) ==> m@
            == "clock_reconciliation_required: reconcile the host clock before storage maintenance"@,
{
    if sample.incident_active {
        return Err(
            "clock_reconciliation_required: reconcile the host clock before storage maintenance".to_string(),
        );
    }
    Ok(())
}

/// A maintenance transaction stops when its reading detects a rollback, and otherwise
/// requires a clock without an active incident.
pub fn check_clock(sample: &ClockSample) -> (r: Result<(), String>)
    ensures
        r is Ok <==> !sample.incident_detected && !sample.incident_active,
        sample.incident_detected ==> (r matches Err(m) && m@
            == "clock_reconciliation_required: maintenance stopped after detecting host clock rollback"@),
        !sample.incident_detected && sample.incident_active ==> (r matches Err(m) && m@
            == "clock_reconciliation_required: reconcile the host clock before storage maintenance"@),
{
    if sample.incident_detected {
        return Err(
            "clock_reconciliation_required: maintenance stopped after detecting host clock rollback".to_string(),
        );
    }
    require_safe_clock_for_write(sample)
}

/// `now` minus the receipt retention period, saturating at `i64::MIN`.
pub open spec fn receipt_cutoff_at(now: i64) -> int {
    let cutoff = now - RECEIPT_RESULT_RETENTION_DAYS * DAY_MS;
    if cutoff < i64::MIN {
        i64::MIN as int
    } else {
        cutoff
    }
}

pub fn receipt_cutoff(now: i64) -> (r: i64)
    ensures
        r == receipt_cutoff_at(now),
{
    let period: i64 = 2_592_000_000;
    assert(period == RECEIPT_RESULT_RETENTION_DAYS * DAY_MS);
    if now < i64::MIN + period {
        i64::MIN
    } else {
        now - period
    }
}

/// What one batch did and whether old payloads remain.
#[derive(Clone, Copy)]
pub struct BatchResult {
    pub receipts: u64,
    pub observations: u64,
    pub observation_rows_inspected: u64,
    pub receipts_remaining: bool,
    pub observations_remaining: bool,
}

/// The running totals of a maintenance run.
#[derive(Clone, Copy)]
pub struct MaintenanceTally {
    pub receipts: u64,
    pub observations: u64,
    pub observation_rows_inspected: u64,
    pub batches: usize,
    pub artifact_cleanup_passes: usize,
    pub receipts_remaining: bool,
    pub observations_remaining: bool,
}

pub open spec fn sat_add(a: u64, b: u64) -> u64 {
    if a + b > u64::MAX {
        u64::MAX
    } else {
        (a + b) as u64
    }
}

impl MaintenanceTally {
    pub fn new() -> (t: MaintenanceTally)
        ensures
            t.receipts == 0 && t.observations == 0 && t.observation_rows_inspected == 0,
            t.batches == 0 && t.artifact_cleanup_passes == 0,
            !t.receipts_remaining && !t.observations_remaining,
    {
        MaintenanceTally {
            receipts: 0,
            observations: 0,
            observation_rows_inspected: 0,
            batches: 0,
            artifact_cleanup_passes: 0,
            receipts_remaining: false,
            observations_remaining: false,
        }
    }

    /// Adds batch number `batch` and the cleanup pass after it; answers whether another
    /// batch is due (old payloads remain and fewer than `max_batches` batches ran).
    pub fn record(&mut self, batch: usize, result: BatchResult, max_batches: usize) -> (more: bool)
        ensures
            final(self).receipts == sat_add(old(self).receipts, result.receipts),
            final(self).observations == sat_add(old(self).observations, result.observations),
            final(self).observation_rows_inspected == sat_add(
                old(self).observation_rows_inspected,
                result.observation_rows_inspected,
            ),
            final(self).batches == batch,
            final(self).artifact_cleanup_passes == (if old(self).artifact_cleanup_passes
                == usize::MAX {
                usize::MAX as int
            } else {
                old(self).artifact_cleanup_passes + 1
            }),
            final(self).receipts_remaining == result.receipts_remaining,
            final(self).observations_remaining == result.observations_remaining,
            more == ((result.receipts_remaining || result.observations_remaining) && batch
                < max_batches),
    {
        self.receipts = self.receipts.saturating_add(result.receipts);
        self.observations = self.observations.saturating_add(result.observations);
        self.observation_rows_inspected = self.observation_rows_inspected.saturating_add(
            result.observation_rows_inspected,
        );
        self.batches = batch;
        self.artifact_cleanup_passes = self.artifact_cleanup_passes.saturating_add(1);
        self.receipts_remaining = result.receipts_remaining;
        self.observations_remaining = result.observations_remaining;
        (result.receipts_remaining || result.observations_remaining) && batch < max_batches
    }
}

} // verus!
