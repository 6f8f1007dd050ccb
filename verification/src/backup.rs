//! Backup snapshots: manifest and entry checks, restore reasons, deadlines and free space,
//! repository placement, and which snapshots retention keeps.
use vstd::prelude::*;
use vstd::string::StringSliceAdditionalSpecFns;

use crate::artifacts::{is_sha256_text, sha256_text_ok};
use crate::crypto::{hex_encode, hex_text, sha256, sha256_digest, ContentHasher};
use crate::ids::{uuid_canonical, uuid_parse};
use crate::text::{
    chars_eq, contains_char, contains_control, has_control, str_eq, trim, trim_str, utf8_len,
    views,
};

verus! {

pub const MAX_BACKUP_DATABASE_BYTES: u64 = 8589934592;

pub const MAX_BACKUP_ARTIFACTS: usize = 1000000;

pub const MAX_BACKUP_MANIFEST_BYTES: u64 = 67108864;

pub const MAX_BACKUP_ARTIFACT_BYTES: u64 = 16777216;

pub const BACKUP_DISK_RESERVE_BYTES: u64 = 268435456;

/// The fixed operation deadline, 45 minutes, in nanoseconds.
pub const BACKUP_OPERATION_TIMEOUT_NANOS: u128 = 2700000000000;

pub const FORMAT_VERSION: u32 = 1;

pub const HOURLY_BUCKETS: usize = 24;

pub const DAILY_BUCKETS: usize = 30;

/// A UUID in canonical form; the messages name `description`.
pub open spec fn uuid_result(value: Seq<char>, description: Seq<char>) -> Result<(), Seq<char>> {
    match uuid_parse(value) {
        None => Err("Invalid "@ + description + "."@),
        Some(c) => if c == value {
            Ok(())
        } else {
            Err(description + " must use canonical UUID form."@)
        },
    }
}

pub fn validate_uuid(value: &str, description: &str) -> (r: Result<(), String>)
    ensures
        match uuid_result(value@, description@) {
            Ok(()) => r is Ok,
            Err(m) => (r matches Err(s) && s@ == m),
        },
{
    match uuid_canonical(value) {
        None => {
            let mut m = "Invalid ".to_string();
            m.append(description);
            m.append(".");
            Err(m)
        },
        Some(c) => if str_eq(c.as_str(), value) {
            Ok(())
        } else {
            let mut m = description.to_string();
            m.append(" must use canonical UUID form.");
            Err(m)
        },
    }
}

/// A digest written as 64 lowercase hexadecimal characters.
pub fn validate_sha256(value: &str) -> (r: Result<(), String>)
    ensures
        r is Ok <==> sha256_text_ok(value.spec_bytes()),
        r matches Err(m) ==> m@ == "Snapshot contains an invalid SHA-256 digest."@,
{
    if !is_sha256_text(value) {
        return Err("Snapshot contains an invalid SHA-256 digest.".to_string());
    }
    Ok(())
}

/// A restore reason: 1 to 2000 bytes, no surrounding whitespace, no NUL or control character.
pub open spec fn reason_ok(reason: Seq<char>) -> bool {
    reason.len() > 0 && utf8_len(reason) <= 2000 && trim(reason) == reason && !reason.contains(
        '\0',
    ) && !contains_control(reason)
}

pub fn validate_reason(reason: &str) -> (r: Result<(), String>)
    ensures
        r is Ok <==> reason_ok(reason@),
        r matches Err(m) ==> m@
            == "Restore reason must be 1-2000 bytes, have no surrounding whitespace, and contain no control characters."@,
{
    let n = crate::text::byte_len(reason);
    let nonempty = crate::text::chars_of(reason).len() > 0;
    if !nonempty || n > 2000 || !str_eq(trim_str(reason), reason) || contains_char(reason, '\0')
        || has_control(reason) {
        return Err(
            "Restore reason must be 1-2000 bytes, have no surrounding whitespace, and contain no control characters.".to_string(),
        );
    }
    Ok(())
}

/// An operation may run for at most 45 minutes.
pub fn check_deadline(elapsed_nanos: u128, operation: &str) -> (r: Result<(), String>)
    ensures
        r is Ok <==> elapsed_nanos <= BACKUP_OPERATION_TIMEOUT_NANOS,
        r matches Err(m) ==> m@ == operation@ + " exceeded the fixed 45-minute operation deadline."@,
{
    if elapsed_nanos > BACKUP_OPERATION_TIMEOUT_NANOS {
        let mut m = operation.to_string();
        m.append(" exceeded the fixed 45-minute operation deadline.");
        return Err(m);
    }
    Ok(())
}

/// Storage must hold the incoming bytes and still keep the fixed 256 MiB reserve.
pub fn check_free_space(free: u64, incoming: u64) -> (r: Result<(), String>)
    ensures
        r is Ok <==> free >= (if incoming + BACKUP_DISK_RESERVE_BYTES > u64::MAX {
            u64::MAX as int
        } else {
            incoming + BACKUP_DISK_RESERVE_BYTES
        }),
        r matches Err(m) ==> m@
            == "Backup storage lacks space while preserving the fixed 256 MiB reserve."@,
{
    let needed = incoming.saturating_add(BACKUP_DISK_RESERVE_BYTES);
    if free < needed {
        return Err("Backup storage lacks space while preserving the fixed 256 MiB reserve.".to_string());
    }
    Ok(())
}

/// `Path::starts_with`: the components of `base` begin the components of `path`.
pub open spec fn path_within(path: Seq<Seq<char>>, base: Seq<Seq<char>>) -> bool {
    base.len() <= path.len() && path.subrange(0, base.len() as int) == base
}

fn components_within(path: &Vec<Vec<char>>, base: &Vec<Vec<char>>) -> (r: bool)
    ensures
        r == path_within(views(path@), views(base@)),
{
    if base.len() > path.len() {
        return false;
    }
    let mut i: usize = 0;
    while i < base.len()
        invariant
            i <= base.len() <= path.len(),
            forall|k: int| 0 <= k < i ==> path@[k]@ == base@[k]@,
        decreases base.len() - i,
    {
        if !chars_eq(&path[i], &base[i]) {
            assert(views(path@).subrange(0, base.len() as int)[i as int] != views(base@)[i as int]);
            return false;
        }
        i = i + 1;
    }
    assert(views(path@).subrange(0, base.len() as int) =~= views(base@));
    true
}

pub open spec fn overlap_message() -> Seq<char> {
    "Backup repository must be separate from the live database and artifact data directories."@
}

/// The backup repository, the live database's directory and the artifact store, each given
/// by the components of its resolved absolute path, must not contain one another.
pub open spec fn overlap_result(
    repository: Seq<Seq<char>>,
    database: Seq<Seq<char>>,
    artifact_root: Seq<Seq<char>>,
) -> Result<(), Seq<char>> {
    if database.len() <= 1 {
        Err("Database path must have a parent directory."@)
    } else {
        let parent = database.drop_last();
        if path_within(repository, parent) || path_within(parent, repository) || path_within(
            repository,
            artifact_root,
        ) || path_within(artifact_root, repository) {
            Err(overlap_message())
        } else {
            Ok(())
        }
    }
}

pub fn reject_repository_overlap(
    repository: &Vec<Vec<char>>,
    database: &Vec<Vec<char>>,
    artifact_root: &Vec<Vec<char>>,
) -> (r: Result<(), String>)
    ensures
        match overlap_result(views(repository@), views(database@), views(artifact_root@)) {
            Ok(()) => r is Ok,
            Err(m) => (r matches Err(s) && s@ == m),
        },
{
    if database.len() <= 1 {
        return Err("Database path must have a parent directory.".to_string());
    }
    let mut parent: Vec<Vec<char>> = Vec::new();
    let mut i: usize = 0;
    while i + 1 < database.len()
        invariant
            i + 1 <= database.len(),
            views(parent@) == views(database@).subrange(0, i as int),
        decreases database.len() - i,
    {
        let ghost before = parent@;
        let c = database[i].clone();
        assert(c@ == views(database@)[i as int]);
        parent.push(c);
        assert(views(parent@) =~= views(before).push(c@));
        assert(views(parent@) =~= views(database@).subrange(0, i + 1));
        i = i + 1;
    }
    assert(views(parent@) =~= views(database@).drop_last());
    if components_within(repository, &parent) || components_within(&parent, repository)
        || components_within(repository, artifact_root) || components_within(
        artifact_root,
        repository,
    ) {
        return Err(
            "Backup repository must be separate from the live database and artifact data directories.".to_string(),
        );
    }
    Ok(())
}

/// The marker that a snapshot was published completely.
pub struct Completion {
    pub format_version: u32,
    pub snapshot_id: String,
    pub manifest_sha256: String,
}

/// The database file a snapshot holds.
pub struct FileRecord {
    pub path: String,
    pub size_bytes: u64,
    pub sha256: String,
}

/// One artifact blob a snapshot holds.
pub struct ArtifactRecord {
    pub artifact_id: String,
    pub storage_key: String,
    pub size_bytes: u64,
    pub sha256: String,
    pub path: String,
}

/// What a snapshot manifest records.
pub struct ManifestHeader {
    pub format_version: u32,
    pub snapshot_id: String,
    pub artifact_count: usize,
    pub database: FileRecord,
}

/// The first problem with a snapshot's completion marker and manifest, before any file is
/// read, or `None`.
pub open spec fn manifest_problem(
    completion: Completion,
    manifest_bytes: Seq<u8>,
    manifest: ManifestHeader,
) -> Option<Seq<char>> {
    if completion.format_version != FORMAT_VERSION {
        Some("Snapshot completion format is unsupported."@)
    } else if hex_text(sha256_digest(manifest_bytes)) != completion.manifest_sha256@ {
        Some("Snapshot manifest digest does not match COMPLETE."@)
    } else if manifest.format_version != FORMAT_VERSION || manifest.snapshot_id@
        != completion.snapshot_id@ {
        Some("Snapshot identity or format does not match COMPLETE."@)
    } else if uuid_result(manifest.snapshot_id@, "snapshot id"@) is Err {
        Some(uuid_result(manifest.snapshot_id@, "snapshot id"@)->Err_0)
    } else if manifest.artifact_count > MAX_BACKUP_ARTIFACTS {
        Some("Snapshot contains too many artifact entries."@)
    } else if manifest.database.path@ != "database.sqlite3"@ {
        Some("Snapshot database path is invalid."@)
    } else if !sha256_text_ok(crate::text::utf8(manifest.database.sha256@)) {
        Some("Snapshot contains an invalid SHA-256 digest."@)
    } else if manifest.database.size_bytes > MAX_BACKUP_DATABASE_BYTES {
        Some("Snapshot database exceeds the fixed 8 GiB limit."@)
    } else {
        None
    }
}


pub fn check_manifest(completion: &Completion, manifest_bytes: &[u8], manifest: &ManifestHeader) -> (r:
    Result<(), String>)
    ensures
        match manifest_problem(*completion, manifest_bytes@, *manifest) {
            None => r is Ok,
            Some(m) => (r matches Err(s) && s@ == m),
        },
{
    if completion.format_version != FORMAT_VERSION {
        return Err("Snapshot completion format is unsupported.".to_string());
    }
    let digest = hex_encode(sha256(manifest_bytes).as_slice());
    if !str_eq(digest.as_str(), completion.manifest_sha256.as_str()) {
        return Err("Snapshot manifest digest does not match COMPLETE.".to_string());
    }
    if manifest.format_version != FORMAT_VERSION || !str_eq(
        manifest.snapshot_id.as_str(),
        completion.snapshot_id.as_str(),
    ) {
        return Err("Snapshot identity or format does not match COMPLETE.".to_string());
    }
    validate_uuid(manifest.snapshot_id.as_str(), "snapshot id")?;
    if manifest.artifact_count > MAX_BACKUP_ARTIFACTS {
        return Err("Snapshot contains too many artifact entries.".to_string());
    }
    if !str_eq(manifest.database.path.as_str(), "database.sqlite3") {
        return Err("Snapshot database path is invalid.".to_string());
    }
    validate_sha256(manifest.database.sha256.as_str())?;
    if manifest.database.size_bytes > MAX_BACKUP_DATABASE_BYTES {
        return Err("Snapshot database exceeds the fixed 8 GiB limit.".to_string());
    }
    Ok(())
}

/// Reads the next chunk of a snapshot file into `hasher`; refuses once the file passes its
/// fixed size `limit`. The finished hasher gives the file's size and digest.
pub fn absorb_snapshot_chunk(hasher: &mut ContentHasher, data: &[u8], limit: u64) -> (r: Result<
    (),
    String,
>)
    requires
        old(hasher).wf(),
        old(hasher).absorbed().len() <= limit,
    ensures
        final(hasher).wf(),
        final(hasher).absorbed().len() <= limit,
        r is Ok <==> old(hasher).absorbed().len() + data@.len() <= limit,
        r is Ok ==> final(hasher).absorbed() == old(hasher).absorbed() + data@,
        r is Err ==> final(hasher).absorbed() == old(hasher).absorbed(),
        r matches Err(m) ==> m@ == "Snapshot file exceeds its fixed size limit."@,
{
    let have = hasher.len();
    if data.len() as u64 > limit - have {
        return Err("Snapshot file exceeds its fixed size limit.".to_string());
    }
    hasher.update(data);
    Ok(())
}

/// A file read back from a snapshot must have the recorded size and digest.
pub fn check_file(size: u64, digest: &str, expected_size: u64, expected_sha256: &str, message: &str) -> (r:
    Result<(), String>)
    ensures
        r is Ok <==> size == expected_size && digest@ == expected_sha256@,
        r matches Err(m) ==> m@ == message@,
{
    if size != expected_size || !str_eq(digest, expected_sha256) {
        return Err(message.to_string());
    }
    Ok(())
}

/// The blob path an artifact entry must use.
pub open spec fn blob_entry_path(key: Seq<char>) -> Seq<char> {
    "blobs/"@ + key + ".blob"@
}

/// Two entries name the same artifact or the same storage key.
pub open spec fn shares_identity(x: ArtifactRecord, y: ArtifactRecord) -> bool {
    x.artifact_id@ == y.artifact_id@ || x.storage_key@ == y.storage_key@
}

/// The first problem with artifact entry `i`, given the entries before it, or `None`.
pub open spec fn artifact_problem(entries: Seq<ArtifactRecord>, i: int) -> Option<Seq<char>> {
    let a = entries[i];
    if uuid_result(a.artifact_id@, "artifact id"@) is Err {
        Some(uuid_result(a.artifact_id@, "artifact id"@)->Err_0)
    } else if uuid_result(a.storage_key@, "artifact storage key"@) is Err {
        Some(uuid_result(a.storage_key@, "artifact storage key"@)->Err_0)
    } else if exists|j: int| 0 <= j < i && #[trigger] shares_identity(entries[j], a) {
        Some("Snapshot contains duplicate artifact identities or storage keys."@)
    } else if a.path@ != blob_entry_path(a.storage_key@) {
        Some("Snapshot artifact path is invalid."@)
    } else if a.size_bytes > MAX_BACKUP_ARTIFACT_BYTES {
        Some("Snapshot artifact exceeds the fixed 16 MiB limit."@)
    } else if !sha256_text_ok(crate::text::utf8(a.sha256@)) {
        Some("Snapshot contains an invalid SHA-256 digest."@)
    } else {
        None
    }
}

/// Checks artifact entry `i` of a manifest before its blob is read.
pub fn check_artifact_entry(entries: &Vec<ArtifactRecord>, i: usize) -> (r: Result<(), String>)
    requires
        i < entries.len(),
    ensures
        match artifact_problem(entries@, i as int) {
            None => r is Ok,
            Some(m) => (r matches Err(s) && s@ == m),
        },
{
    let a = &entries[i];
    validate_uuid(a.artifact_id.as_str(), "artifact id")?;
    validate_uuid(a.storage_key.as_str(), "artifact storage key")?;
    let mut j: usize = 0;
    while j < i
        invariant
            j <= i < entries.len(),
            a == &entries@[i as int],
            uuid_result(a.artifact_id@, "artifact id"@) is Ok,
            uuid_result(a.storage_key@, "artifact storage key"@) is Ok,
            forall|k: int| 0 <= k < j ==> !#[trigger] shares_identity(entries@[k], *a),
        decreases i - j,
    {
        let other = &entries[j];
        let dup = str_eq(other.artifact_id.as_str(), a.artifact_id.as_str()) || str_eq(
            other.storage_key.as_str(),
            a.storage_key.as_str(),
        );
        assert(dup == shares_identity(entries@[j as int], *a));
        if dup {
            assert(shares_identity(entries@[j as int], entries@[i as int]));
            return Err("Snapshot contains duplicate artifact identities or storage keys.".to_string());
        }
        j = j + 1;
    }
    let mut path = "blobs/".to_string();
    path.append(a.storage_key.as_str());
    path.append(".blob");
    if !str_eq(a.path.as_str(), path.as_str()) {
        return Err("Snapshot artifact path is invalid.".to_string());
    }
    if a.size_bytes > MAX_BACKUP_ARTIFACT_BYTES {
        return Err("Snapshot artifact exceeds the fixed 16 MiB limit.".to_string());
    }
    validate_sha256(a.sha256.as_str())
}

/// A finalized upload row that a snapshot taken at its time must hold.
pub struct EligibleArtifactRow {
    pub id: String,
    pub storage_key: Option<String>,
    pub size_bytes: Option<i64>,
    pub sha256: Option<String>,
}

/// A row and a manifest entry describe the same blob.
pub open spec fn row_matches(row: EligibleArtifactRow, a: ArtifactRecord) -> bool {
    &&& row.id@ == a.artifact_id@
    &&& (row.storage_key matches Some(k) && k@ == a.storage_key@)
    &&& (row.size_bytes matches Some(n) && n >= 0 && n == a.size_bytes)
    &&& (row.sha256 matches Some(d) && d@ == a.sha256@)
}

/// The problem with a manifest's artifact entries against the eligible rows, both in id
/// order, or `None` when they match one for one.
pub open spec fn projection_problem(
    rows: Seq<EligibleArtifactRow>,
    artifacts: Seq<ArtifactRecord>,
) -> Option<Seq<char>> {
    if rows.len() != artifacts.len() || rows.len() > MAX_BACKUP_ARTIFACTS {
        Some("Snapshot manifest does not exactly cover its eligible artifact rows."@)
    } else if exists|i: int| 0 <= i < rows.len() && !row_matches(#[trigger] rows[i], artifacts[i]) {
        Some("Snapshot manifest does not exactly match its eligible artifact rows."@)
    } else {
        None
    }
}

/// A snapshot's manifest must list exactly the artifact rows that were eligible when it
/// was taken (`rows`, read with one row beyond the limit so an excess shows).
pub fn check_manifest_projection(
    rows: &Vec<EligibleArtifactRow>,
    artifacts: &Vec<ArtifactRecord>,
) -> (r: Result<(), String>)
    ensures
        match projection_problem(rows@, artifacts@) {
            None => r is Ok,
            Some(m) => (r matches Err(s) && s@ == m),
        },
{
    if rows.len() != artifacts.len() || rows.len() > MAX_BACKUP_ARTIFACTS {
        return Err("Snapshot manifest does not exactly cover its eligible artifact rows.".to_string());
    }
    let mut i: usize = 0;
    while i < rows.len()
        invariant
            i <= rows.len(),
            rows.len() == artifacts.len(),
            rows.len() <= MAX_BACKUP_ARTIFACTS,
            forall|j: int| 0 <= j < i ==> row_matches(#[trigger] rows@[j], artifacts@[j]),
        decreases rows.len() - i,
    {
        let row = &rows[i];
        let a = &artifacts[i];
        let key_ok = match &row.storage_key {
            Some(k) => str_eq(k.as_str(), a.storage_key.as_str()),
            None => false,
        };
        let size_ok = match row.size_bytes {
            Some(n) => n >= 0 && n as u64 == a.size_bytes,
            None => false,
        };
        let digest_ok = match &row.sha256 {
            Some(d) => str_eq(d.as_str(), a.sha256.as_str()),
            None => false,
        };
        let ok = str_eq(row.id.as_str(), a.artifact_id.as_str()) && key_ok && size_ok && digest_ok;
        if !ok {
            assert(!row_matches(rows@[i as int], artifacts@[i as int]));
            return Err("Snapshot manifest does not exactly match its eligible artifact rows.".to_string());
        }
        i = i + 1;
    }
    Ok(())
}

/// The UTC hour (`%Y-%m-%dT%H`) and day (`%Y-%m-%d`) of a millisecond timestamp, or `None`
/// outside the supported range.
pub uninterp spec fn utc_hour_day(ms: i64) -> Option<(Seq<char>, Seq<char>)>;

/// `chrono::DateTime::<Utc>::from_timestamp_millis`, formatted as the snapshot's hour and
/// day bucket; the result depends on the timestamp alone (always UTC).
#[verifier::external_body]
fn utc_buckets(ms: i64) -> (r: Option<(String, String)>)
    ensures
        match utc_hour_day(ms) {
            Some((h, d)) => (r matches Some(p) && p.0@ == h && p.1@ == d),
            None => r is None,
        },
{
    match chrono::DateTime::<chrono::Utc>::from_timestamp_millis(ms) {
        Some(t) => Some((t.format("%Y-%m-%dT%H").to_string(), t.format("%Y-%m-%d").to_string())),
        None => None,
    }
}

/// Inserts `x` after every entry at least as new, keeping earlier entries first among equals.
pub open spec fn insert_newest_first(sorted: Seq<(i64, int)>, x: (i64, int)) -> Seq<(i64, int)>
    decreases sorted.len(),
{
    if sorted.len() == 0 {
        seq![x]
    } else if sorted.last().0 >= x.0 {
        sorted.push(x)
    } else {
        insert_newest_first(sorted.drop_last(), x).push(sorted.last())
    }
}

/// The entries ordered newest first, ties in their original order (a stable sort).
pub open spec fn newest_first(items: Seq<(i64, int)>) -> Seq<(i64, int)>
    decreases items.len(),
{
    if items.len() == 0 {
        seq![]
    } else {
        insert_newest_first(newest_first(items.drop_last()), items.last())
    }
}

/// Snapshot creation times paired with their positions.
pub open spec fn indexed(created: Seq<i64>) -> Seq<(i64, int)> {
    Seq::new(created.len(), |i: int| (created[i], i))
}

/// Retention so far: the hour and day buckets taken, and each decision `(position, keep)`.
pub struct RetentionState {
    pub hours: Seq<Seq<char>>,
    pub days: Seq<Seq<char>>,
    pub decisions: Seq<(int, bool)>,
}

/// One snapshot, newest first: kept when it is the first of a new hour among the 24 newest
/// hours, or the first of a new day among the 30 newest days.
pub open spec fn retention_step(st: RetentionState, entry: (i64, int)) -> Option<RetentionState> {
    match utc_hour_day(entry.0) {
        None => None,
        Some((hour, day)) => {
            let keep_hour = st.hours.len() < HOURLY_BUCKETS && !st.hours.contains(hour);
            let keep_day = st.days.len() < DAILY_BUCKETS && !st.days.contains(day);
            Some(
                RetentionState {
                    hours: if keep_hour {
                        st.hours.push(hour)
                    } else {
                        st.hours
                    },
                    days: if keep_day {
                        st.days.push(day)
                    } else {
                        st.days
                    },
                    decisions: st.decisions.push((entry.1, keep_hour || keep_day)),
                },
            )
        },
    }
}

pub open spec fn retention_fold(order: Seq<(i64, int)>) -> Option<RetentionState>
    decreases order.len(),
{
    if order.len() == 0 {
        Some(RetentionState { hours: seq![], days: seq![], decisions: seq![] })
    } else {
        match retention_fold(order.drop_last()) {
            None => None,
            Some(st) => retention_step(st, order.last()),
        }
    }
}

/// Which snapshots retention keeps, as `(position, keep)` newest first, or `None` when a
/// creation time is outside the supported range.
pub open spec fn retention_decisions(created: Seq<i64>) -> Option<Seq<(int, bool)>> {
    match retention_fold(newest_first(indexed(created))) {
        Some(st) => Some(st.decisions),
        None => None,
    }
}

proof fn lemma_insert_split(sorted: Seq<(i64, int)>, x: (i64, int), p: int)
    requires
        0 <= p <= sorted.len(),
        forall|k: int| p <= k < sorted.len() ==> (#[trigger] sorted[k]).0 < x.0,
        p == 0 || sorted[p - 1].0 >= x.0,
    ensures
        insert_newest_first(sorted, x) == sorted.subrange(0, p).push(x) + sorted.subrange(
            p,
            sorted.len() as int,
        ),
    decreases sorted.len(),
{
    if sorted.len() == 0 {
        assert(sorted.subrange(0, p).push(x) + sorted.subrange(p, sorted.len() as int) =~= seq![x]);
    } else if p == sorted.len() {
        assert(sorted.subrange(0, p) =~= sorted);
        assert(sorted.subrange(0, p).push(x) + sorted.subrange(p, sorted.len() as int) =~= sorted.push(x));
    } else {
        lemma_insert_split(sorted.drop_last(), x, p);
        assert(sorted.drop_last().subrange(0, p) =~= sorted.subrange(0, p));
        assert(sorted.subrange(0, p).push(x) + sorted.subrange(p, sorted.len() as int) =~= (
        sorted.subrange(0, p).push(x) + sorted.drop_last().subrange(p, sorted.len() - 1)).push(
            sorted.last(),
        ));
    }
}

/// Positions of snapshots, newest first, ties in their given order.
fn order_newest_first(created: &Vec<i64>) -> (r: Vec<(i64, usize)>)
    ensures
        r@.len() == created.len(),
        r@.map_values(|e: (i64, usize)| (e.0, e.1 as int)) == newest_first(indexed(created@)),
{
    let mut sorted: Vec<(i64, usize)> = Vec::new();
    let mut i: usize = 0;
    while i < created.len()
        invariant
            i <= created.len(),
            sorted@.len() == i,
            sorted@.map_values(|e: (i64, usize)| (e.0, e.1 as int)) == newest_first(
                indexed(created@).subrange(0, i as int),
            ),
        decreases created.len() - i,
    {
        let x = (created[i], i);
        let ghost xs = (created@[i as int], i as int);
        let ghost before = sorted@.map_values(|e: (i64, usize)| (e.0, e.1 as int));
        assert(indexed(created@).subrange(0, i + 1).drop_last() =~= indexed(created@).subrange(
            0,
            i as int,
        ));
        assert(indexed(created@).subrange(0, i + 1).last() == xs);
        let mut p: usize = sorted.len();
        while p > 0 && sorted[p - 1].0 < x.0
            invariant
                p <= sorted.len(),
                sorted@.map_values(|e: (i64, usize)| (e.0, e.1 as int)) == before,
                forall|k: int| p <= k < before.len() ==> (#[trigger] before[k]).0 < x.0,
            decreases p,
        {
            p = p - 1;
        }
        proof {
            lemma_insert_split(before, xs, p as int);
        }
        sorted.insert(p, x);
        assert(sorted@.map_values(|e: (i64, usize)| (e.0, e.1 as int)) =~= before.subrange(
            0,
            p as int,
        ).push(xs) + before.subrange(p as int, before.len() as int));
        i = i + 1;
    }
    assert(indexed(created@).subrange(0, created@.len() as int) =~= indexed(created@));
    sorted
}

pub open spec fn decision_views(v: Seq<(usize, bool)>) -> Seq<(int, bool)> {
    v.map_values(|e: (usize, bool)| (e.0 as int, e.1))
}

fn contains_key(keys: &Vec<Vec<char>>, key: &Vec<char>) -> (r: bool)
    ensures
        r == views(keys@).contains(key@),
{
    let mut i: usize = 0;
    while i < keys.len()
        invariant
            i <= keys.len(),
            forall|k: int| 0 <= k < i ==> keys@[k]@ != key@,
        decreases keys.len() - i,
    {
        if chars_eq(&keys[i], key) {
            assert(views(keys@)[i as int] == key@);
            return true;
        }
        i = i + 1;
    }
    proof {
        if views(keys@).contains(key@) {
            let k = choose|k: int| 0 <= k < views(keys@).len() && views(keys@)[k] == key@;
            assert(keys@[k]@ == key@);
        }
    }
    false
}

/// Which snapshots to keep, newest first, as `(position, keep)`: at most one per hour for
/// the 24 newest hours and one per day for the 30 newest days.
pub fn retention_plan(created: &Vec<i64>) -> (r: Result<Vec<(usize, bool)>, String>)
    ensures
        match retention_decisions(created@) {
            Some(d) => (r matches Ok(v) && decision_views(v@) == d),
            None => (r matches Err(m) && m@ == "Snapshot timestamp is outside the supported range."@),
        },
{
    let order = order_newest_first(created);
    let ghost spec_order = newest_first(indexed(created@));
    let mut hours: Vec<Vec<char>> = Vec::new();
    let mut days: Vec<Vec<char>> = Vec::new();
    let mut decisions: Vec<(usize, bool)> = Vec::new();
    let mut i: usize = 0;
    assert(spec_order.subrange(0, 0) =~= seq![]);
    assert(views(hours@) =~= seq![]);
    assert(views(days@) =~= seq![]);
    assert(decision_views(decisions@) =~= seq![]);
    while i < order.len()
        invariant
            i <= order.len(),
            spec_order == newest_first(indexed(created@)),
            order@.map_values(|e: (i64, usize)| (e.0, e.1 as int)) == spec_order,
            retention_fold(spec_order.subrange(0, i as int)) == Some(
                RetentionState {
                    hours: views(hours@),
                    days: views(days@),
                    decisions: decision_views(decisions@),
                },
            ),
        decreases order.len() - i,
    {
        let (ms, index) = order[i];
        assert(spec_order.subrange(0, i + 1).drop_last() =~= spec_order.subrange(0, i as int));
        assert(spec_order[i as int] == (ms, index as int));
        let (hour_text, day_text) = match utc_buckets(ms) {
            Some(p) => p,
            None => {
                proof {
                    assert(spec_order.subrange(0, i + 1).last() == (ms, index as int));
                    assert(retention_fold(spec_order.subrange(0, i + 1)) is None);
                    lemma_retention_fold_none(spec_order, (i + 1) as nat);
                }
                return Err("Snapshot timestamp is outside the supported range.".to_string());
            },
        };
        let hour = crate::text::chars_of(hour_text.as_str());
        let day = crate::text::chars_of(day_text.as_str());
        let keep_hour = hours.len() < HOURLY_BUCKETS && !contains_key(&hours, &hour);
        let keep_day = days.len() < DAILY_BUCKETS && !contains_key(&days, &day);
        if keep_hour {
            let ghost before = hours@;
            hours.push(hour);
            assert(views(hours@) =~= views(before).push(hour_text@));
        }
        if keep_day {
            let ghost before = days@;
            days.push(day);
            assert(views(days@) =~= views(before).push(day_text@));
        }
        let ghost before = decisions@;
        decisions.push((index, keep_hour || keep_day));
        assert(decision_views(decisions@) =~= decision_views(before).push(
            (index as int, keep_hour || keep_day),
        ));
        i = i + 1;
    }
    assert(spec_order.subrange(0, order@.len() as int) =~= spec_order);
    Ok(decisions)
}

proof fn lemma_retention_fold_none(order: Seq<(i64, int)>, n: nat)
    requires
        n <= order.len(),
        retention_fold(order.subrange(0, n as int)) is None,
    ensures
        retention_fold(order) is None,
    decreases order.len() - n,
{
    if n < order.len() {
        assert(order.subrange(0, n as int + 1).drop_last() =~= order.subrange(0, n as int));
        lemma_retention_fold_none(order, n + 1);
    } else {
        assert(order.subrange(0, n as int) =~= order);
    }
}

/// The number of kept decisions.
pub open spec fn kept_count(d: Seq<(int, bool)>) -> nat
    decreases d.len(),
{
    if d.len() == 0 {
        0
    } else {
        kept_count(d.drop_last()) + if d.last().1 {
            1nat
        } else {
            0nat
        }
    }
}

proof fn lemma_fold_counts(order: Seq<(i64, int)>)
    ensures
        retention_fold(order) matches Some(st) ==> {
            &&& st.hours.len() <= HOURLY_BUCKETS
            &&& st.days.len() <= DAILY_BUCKETS
            &&& kept_count(st.decisions) <= st.hours.len() + st.days.len()
            &&& st.decisions.len() == order.len()
            &&& (order.len() > 0 ==> st.decisions[0].1)
            &&& forall|k: int| 0 <= k < order.len() ==> (#[trigger] st.decisions[k]).0 == order[k].1
        },
    decreases order.len(),
{
    if order.len() > 0 {
        lemma_fold_counts(order.drop_last());
        if let Some(prev) = retention_fold(order.drop_last()) {
            if let Some(st) = retention_step(prev, order.last()) {
                assert(st.decisions.drop_last() =~= prev.decisions);
                if order.len() == 1 {
                    assert(prev.hours =~= seq![]);
                }
                assert forall|k: int| 0 <= k < order.len() implies (#[trigger] st.decisions[k]).0
                    == order[k].1 by {
                    if k < order.len() - 1 {
                        assert(st.decisions[k] == prev.decisions[k]);
                        assert(order[k] == order.drop_last()[k]);
                    }
                }
            }
        }
    }
}

proof fn lemma_insert_keeps_order(sorted: Seq<(i64, int)>, x: (i64, int))
    requires
        forall|a: int, b: int| 0 <= a < b < sorted.len() ==> (#[trigger] sorted[a]).0 >= (#[trigger] sorted[b]).0,
    ensures
        insert_newest_first(sorted, x).len() == sorted.len() + 1,
        forall|a: int, b: int|
            0 <= a < b < sorted.len() + 1 ==> (#[trigger] insert_newest_first(sorted, x)[a]).0
                >= (#[trigger] insert_newest_first(sorted, x)[b]).0,
        forall|a: int|
            0 <= a < sorted.len() + 1 ==> (#[trigger] insert_newest_first(sorted, x)[a]) == x || sorted.contains(
                insert_newest_first(sorted, x)[a],
            ),
    decreases sorted.len(),
{
    if sorted.len() > 0 && sorted.last().0 < x.0 {
        lemma_insert_keeps_order(sorted.drop_last(), x);
        let r = insert_newest_first(sorted.drop_last(), x);
        assert forall|a: int| 0 <= a < r.len() implies (#[trigger] r[a]).0 >= sorted.last().0 by {
            if r[a] != x {
                let k = choose|k: int| 0 <= k < sorted.drop_last().len() && sorted.drop_last()[k] == r[a];
                assert(sorted[k] == r[a]);
            }
        }
        assert forall|a: int| 0 <= a < r.len() implies (#[trigger] r[a]) == x || sorted.contains(r[a]) by {
            if r[a] != x {
                let k = choose|k: int| 0 <= k < sorted.drop_last().len() && sorted.drop_last()[k] == r[a];
                assert(sorted[k] == r[a]);
            }
        }
        assert(sorted.contains(sorted.last()));
    } else if sorted.len() > 0 {
        assert forall|a: int| 0 <= a < sorted.len() + 1 implies (#[trigger] sorted.push(x)[a]) == x
            || sorted.contains(sorted.push(x)[a]) by {
            if a < sorted.len() {
                assert(sorted.push(x)[a] == sorted[a]);
            }
        }
    }
}

proof fn lemma_newest_first_sorted(items: Seq<(i64, int)>)
    ensures
        newest_first(items).len() == items.len(),
        forall|a: int, b: int|
            0 <= a < b < items.len() ==> (#[trigger] newest_first(items)[a]).0 >= (#[trigger] newest_first(items)[b]).0,
        forall|a: int| 0 <= a < items.len() ==> items.contains(#[trigger] newest_first(items)[a]),
    decreases items.len(),
{
    if items.len() > 0 {
        lemma_newest_first_sorted(items.drop_last());
        let prev = newest_first(items.drop_last());
        lemma_insert_keeps_order(prev, items.last());
        assert forall|a: int| 0 <= a < items.len() implies items.contains(#[trigger] newest_first(items)[a]) by {
            let e = newest_first(items)[a];
            if e == items.last() {
                assert(items[items.len() - 1] == e);
            } else {
                assert(prev.contains(e));
                let k = choose|k: int| 0 <= k < prev.len() && prev[k] == e;
                assert(items.drop_last().contains(e));
                let m = choose|m: int| 0 <= m < items.drop_last().len() && items.drop_last()[m] == e;
                assert(items[m] == e);
            }
        }
    }
}

/// Retention keeps at most 24 + 30 snapshots, always keeps the newest one, and decides
/// every snapshot exactly in order from newest to oldest.
pub proof fn law_retention_keeps_newest_and_is_bounded(created: Seq<i64>)
    requires
        retention_decisions(created) is Some,
    ensures
        ({
            let d = retention_decisions(created)->Some_0;
            let order = newest_first(indexed(created));
            &&& d.len() == created.len()
            &&& kept_count(d) <= HOURLY_BUCKETS + DAILY_BUCKETS
            &&& (created.len() > 0 ==> d[0].1)
            &&& forall|k: int| 0 <= k < d.len() ==> (#[trigger] d[k]).0 == order[k].1
            &&& forall|a: int, b: int|
                0 <= a < b < d.len() ==> created[(#[trigger] d[a]).0] >= created[(#[trigger] d[b]).0]
        }),
{
    let order = newest_first(indexed(created));
    lemma_newest_first_sorted(indexed(created));
    lemma_fold_counts(order);
    let d = retention_decisions(created)->Some_0;
    assert forall|a: int| 0 <= a < order.len() implies created[(#[trigger] order[a]).1] == order[a].0 by {
        assert(indexed(created).contains(order[a]));
        let k = choose|k: int| 0 <= k < indexed(created).len() && indexed(created)[k] == order[a];
    }
    assert forall|a: int, b: int| 0 <= a < b < d.len() implies created[(#[trigger] d[a]).0]
        >= created[(#[trigger] d[b]).0] by {
        assert(d[a].0 == order[a].1);
        assert(d[b].0 == order[b].1);
        assert(created[order[a].1] == order[a].0);
        assert(created[order[b].1] == order[b].0);
    }
}
/// Backup files and directories grant nothing to group or others, and a directory keeps
/// every owner permission.
pub open spec fn private_mode(mode: u32, directory: bool) -> bool {
    mode & 0o077 == 0 && (!directory || mode & 0o700 == 0o700)
}

pub fn private_mode_ok(mode: u32, directory: bool) -> (r: bool)
    ensures
        r == private_mode(mode, directory),
{
    mode & 0o077 == 0 && (!directory || mode & 0o700 == 0o700)
}

} // verus!
