//! Artifact rules: link and upload metadata bounds, retention, storage keys,
//! availability and download names.
use vstd::prelude::*;
use vstd::string::StringSliceAdditionalSpecFns;

use crate::auth::Actor;
use crate::crypto::{hex_text, sha256_digest, ContentHasher};
use crate::error::{bad_request_view, conflict_view, error_view, forbidden_view, AppError, ErrorView};
use crate::ids::{uuid_canonical, uuid_parse};
use crate::text::{
    byte_is_ascii_alnum, byte_is_ascii_digit, chars_of, find_char, first_index, is_ascii_alnum,
    lemma_first_index, slice_chars, str_eq, string_from_chars, utf8,
};
use crate::validation::{bounded_plain_message, bounded_plain_ok, check_bounded_plain};

verus! {

pub const MAX_ARTIFACT_BYTES: i64 = 16_777_216;

pub const LIVE_ARTIFACT_QUOTA_BYTES: i64 = 10_737_418_240;

pub const DISK_FREE_RESERVE_BYTES: u64 = 268_435_456;

pub const DEFAULT_RETENTION_DAYS: i64 = 90;

pub const MAX_RETENTION_DAYS: i64 = 3650;

pub const RESERVATION_LIFETIME_MS: i64 = 3_600_000;

/// Artifact text: at most `max` bytes, no control characters, nonempty when required.
pub fn bounded(value: &str, name: &str, max: usize, required: bool) -> (r: Result<(), AppError>)
    ensures
        r is Ok <==> bounded_plain_ok(value@, max as nat, required),
        r matches Err(e) ==> e@ == bad_request_view(
            bounded_plain_message(name@, max as nat, required),
        ),
{
    check_bounded_plain(value, name, max, required)
}

/// Bytes of a MIME type or subtype token.
pub open spec fn token_byte(b: u8) -> bool {
    byte_is_ascii_alnum(b) || b == 0x21 || b == 0x23 || b == 0x24 || b == 0x26 || b == 0x5e || b
        == 0x5f || b == 0x2e || b == 0x2b || b == 0x2d
}

pub open spec fn token_ok(part: Seq<char>) -> bool {
    part.len() > 0 && forall|i: int| 0 <= i < utf8(part).len() ==> token_byte(#[trigger] utf8(part)[i])
}

/// A media type `type/subtype` of tokens, without parameters.
pub open spec fn media_type_shape(v: Seq<char>) -> Option<bool> {
    match first_index(v, '/') {
        None => None,
        Some(i) => Some(token_ok(v.subrange(0, i)) && token_ok(v.subrange(i + 1, v.len() as int))),
    }
}

fn token(part: &Vec<char>) -> (r: bool)
    ensures
        r == token_ok(part@),
{
    if part.len() == 0 {
        return false;
    }
    let text = string_from_chars(part);
    let bytes = text.as_str().as_bytes();
    let mut i: usize = 0;
    while i < bytes.len()
        invariant
            bytes@ == utf8(part@),
            i <= bytes.len(),
            forall|j: int| 0 <= j < i ==> token_byte(#[trigger] bytes@[j]),
        decreases bytes.len() - i,
    {
        let b = bytes[i];
        if !((0x30 <= b && b <= 0x39) || (0x61 <= b && b <= 0x7a) || (0x41 <= b && b <= 0x5a) || b
            == 0x21 || b == 0x23 || b == 0x24 || b == 0x26 || b == 0x5e || b == 0x5f || b == 0x2e
            || b == 0x2b || b == 0x2d) {
            return false;
        }
        i = i + 1;
    }
    true
}

pub fn validate_media_type(value: &str) -> (r: Result<(), AppError>)
    ensures
        !bounded_plain_ok(value@, 127, true) ==> (r matches Err(e) && e@ == bad_request_view(
            bounded_plain_message("media_type"@, 127, true),
        )),
        bounded_plain_ok(value@, 127, true) ==> match media_type_shape(value@) {
            None => (r matches Err(e) && e@ == bad_request_view(
                "media_type must be a MIME type such as text/plain."@,
            )),
            Some(true) => r is Ok,
            Some(false) => (r matches Err(e) && e@ == bad_request_view(
                "media_type must be a MIME type without parameters or control characters."@,
            )),
        },
{
    bounded(value, "media_type", 127, true)?;
    let v = chars_of(value);
    match find_char(&v, '/') {
        None => Err(AppError::bad_request("media_type must be a MIME type such as text/plain.")),
        Some(i) => {
            proof {
                lemma_first_index(v@, '/');
            }
            let kind = slice_chars(&v, 0, i);
            let subtype = slice_chars(&v, i + 1, v.len());
            if !token(&kind) || !token(&subtype) {
                return Err(
                    AppError::bad_request(
                        "media_type must be a MIME type without parameters or control characters.",
                    ),
                );
            }
            Ok(())
        },
    }
}

/// 64 lowercase hexadecimal bytes.
pub open spec fn sha256_text_ok(bytes: Seq<u8>) -> bool {
    bytes.len() == 64 && forall|i: int|
        0 <= i < bytes.len() ==> byte_is_ascii_digit(#[trigger] bytes[i]) || (0x61 <= bytes[i]
            <= 0x66)
}

/// True when `value` is 64 lowercase hexadecimal characters.
pub fn is_sha256_text(value: &str) -> (r: bool)
    ensures
        r == sha256_text_ok(value.spec_bytes()),
{
    let bytes = value.as_bytes();
    if bytes.len() != 64 {
        return false;
    }
    let mut i: usize = 0;
    while i < bytes.len()
        invariant
            bytes@ == value.spec_bytes(),
            bytes.len() == 64,
            i <= bytes.len(),
            forall|j: int|
                0 <= j < i ==> byte_is_ascii_digit(#[trigger] bytes@[j]) || (0x61 <= bytes@[j]
                    <= 0x66),
        decreases bytes.len() - i,
    {
        let b = bytes[i];
        if !((0x30 <= b && b <= 0x39) || (0x61 <= b && b <= 0x66)) {
            return false;
        }
        i = i + 1;
    }
    true
}

pub fn validate_sha256(value: &str) -> (r: Result<(), AppError>)
    ensures
        r is Ok <==> sha256_text_ok(value.spec_bytes()),
        r matches Err(e) ==> e@ == bad_request_view(
            "sha256 must be 64 lowercase hexadecimal characters."@,
        ),
{
    if !is_sha256_text(value) {
        return Err(AppError::bad_request("sha256 must be 64 lowercase hexadecimal characters."));
    }
    Ok(())
}

/// Uploaded artifacts hold 0 to 16 MiB.
pub fn validate_size(value: i64) -> (r: Result<(), AppError>)
    ensures
        r is Ok <==> 0 <= value <= MAX_ARTIFACT_BYTES,
        r matches Err(e) ==> e@ == error_view(
            413,
            "artifact_too_large"@,
            "Uploaded artifacts are limited to 16 MiB."@,
        ),
{
    if !(0 <= value && value <= MAX_ARTIFACT_BYTES) {
        return Err(
            AppError::new(413, "artifact_too_large", "Uploaded artifacts are limited to 16 MiB."),
        );
    }
    Ok(())
}

/// When a non-pinned artifact expires: `days` (90 by default, 1 to 3650) after `now`.
pub fn retention_until(now: i64, pinned: bool, days: Option<i64>) -> (r: Result<
    Option<i64>,
    AppError,
>)
    requires
        now <= i64::MAX - MAX_RETENTION_DAYS * 86_400_000,
    ensures
        pinned && days is Some ==> (r matches Err(e) && e@ == bad_request_view(
            "retention_days must be omitted when pinned is true."@,
        )),
        pinned && days is None ==> r matches Ok(None),
        !pinned ==> {
            let d = match days {
                Some(d) => d,
                None => DEFAULT_RETENTION_DAYS,
            };
            if 1 <= d <= MAX_RETENTION_DAYS {
                r matches Ok(Some(t)) && t == now + d * 86_400_000
            } else {
                (r matches Err(e) && e@ == bad_request_view(
                    "retention_days must be between 1 and 3650."@,
                ))
            }
        },
{
    if pinned {
        if days.is_some() {
            return Err(AppError::bad_request("retention_days must be omitted when pinned is true."));
        }
        return Ok(None);
    }
    let days = match days {
        Some(d) => d,
        None => DEFAULT_RETENTION_DAYS,
    };
    if !(1 <= days && days <= MAX_RETENTION_DAYS) {
        return Err(AppError::bad_request("retention_days must be between 1 and 3650."));
    }
    Ok(Some(now + days * 86_400_000))
}

/// A listing page size: 50 by default, 1 to 200; a cursor must be an artifact UUID.
pub fn page_limit(limit: Option<i64>, cursor: Option<&str>) -> (r: Result<i64, AppError>)
    ensures
        ({
            let n = match limit {
                Some(n) => n,
                None => 50,
            };
            let cursor_ok = match cursor {
                Some(c) => uuid_parse(c@) is Some,
                None => true,
            };
            if 1 <= n <= 200 && cursor_ok {
                r matches Ok(x) && x == n
            } else {
                (r matches Err(e) && e@ == bad_request_view(
                    "limit must be between 1 and 200 and cursor must be an artifact UUID."@,
                ))
            }
        }),
{
    let n = match limit {
        Some(n) => n,
        None => 50,
    };
    let cursor_ok = match cursor {
        Some(c) => uuid_canonical(c).is_some(),
        None => true,
    };
    if !(1 <= n && n <= 200) || !cursor_ok {
        return Err(
            AppError::bad_request(
                "limit must be between 1 and 200 and cursor must be an artifact UUID.",
            ),
        );
    }
    Ok(n)
}

/// The blob path of an upload under the artifact store: `blobs/XX/UUID.blob`,
/// with `XX` the first two characters of the canonical UUID.
pub open spec fn blob_path(canonical: Seq<char>) -> Seq<char> {
    "blobs/"@ + canonical.subrange(0, 2) + "/"@ + canonical + ".blob"@
}

pub fn storage_path(key: &str) -> (r: Result<String, AppError>)
    ensures
        match uuid_parse(key@) {
            Some(c) => (r matches Ok(p) && p@ == blob_path(c)),
            None => (r matches Err(e) && e@ == crate::error::internal_view()),
        },
{
    match uuid_canonical(key) {
        Some(c) => {
            let v = chars_of(c.as_str());
            let prefix = string_from_chars(&slice_chars(&v, 0, 2));
            let mut p = "blobs/".to_owned();
            p.append(prefix.as_str());
            p.append("/");
            p.append(c.as_str());
            p.append(".blob");
            Ok(p)
        },
        None => Err(AppError::internal()),
    }
}

/// The staging path of an upload: `staging/UUID.SUFFIX`.
pub fn staging_path(key: &str, suffix: &str) -> (r: Result<String, AppError>)
    ensures
        match uuid_parse(key@) {
            Some(c) => (r matches Ok(p) && p@ == "staging/"@ + c + "."@ + suffix@),
            None => (r matches Err(e) && e@ == crate::error::internal_view()),
        },
{
    match uuid_canonical(key) {
        Some(c) => {
            let mut p = "staging/".to_owned();
            p.append(c.as_str());
            p.append(".");
            p.append(suffix);
            Ok(p)
        },
        None => Err(AppError::internal()),
    }
}

/// The stored facts that decide an artifact's availability.
pub struct ArtifactState {
    pub state: String,
    pub kind: String,
    pub reservation_expires_at: Option<i64>,
    pub retention_until: Option<i64>,
    pub pinned: bool,
    pub storage_key: Option<String>,
}

/// Availability of an artifact at `now`; `blob_present` says whether its
/// stored blob is an ordinary file.
pub open spec fn availability_of(a: ArtifactState, now: i64, blob_present: bool) -> Seq<char> {
    if a.state@ == "deleted"@ {
        "deleted"@
    } else if a.state@ == "reserved"@ {
        if a.reservation_expires_at matches Some(until) && until <= now {
            "expired"@
        } else {
            "pending"@
        }
    } else if !a.pinned && (a.retention_until matches Some(until) && until <= now) {
        "expired"@
    } else if a.kind@ == "upload"@ && (a.storage_key is None || !blob_present) {
        "unavailable"@
    } else {
        "available"@
    }
}

pub fn availability(a: &ArtifactState, now: i64, blob_present: bool) -> (r: &'static str)
    ensures
        r@ == availability_of(*a, now, blob_present),
{
    if str_eq(a.state.as_str(), "deleted") {
        return "deleted";
    }
    if str_eq(a.state.as_str(), "reserved") {
        return match a.reservation_expires_at {
            Some(until) => if until <= now {
                "expired"
            } else {
                "pending"
            },
            None => "pending",
        };
    }
    if !a.pinned {
        if let Some(until) = a.retention_until {
            if until <= now {
                return "expired";
            }
        }
    }
    if str_eq(a.kind.as_str(), "upload") && (a.storage_key.is_none() || !blob_present) {
        return "unavailable";
    }
    "available"
}

/// Only the author or a human operator may change an artifact's retention or delete it.
pub fn authorize_change(actor: &Actor, created_by: &str) -> (r: Result<(), AppError>)
    ensures
        r is Ok <==> actor.kind@ == "human"@ || created_by@ == actor.id@,
        r matches Err(e) ==> e@ == forbidden_view(
            "Only the artifact author or a human operator may change retention or delete it."@,
        ),
{
    if !str_eq(actor.kind.as_str(), "human") && !str_eq(created_by, actor.id.as_str()) {
        return Err(
            AppError::forbidden(
                "Only the artifact author or a human operator may change retention or delete it.",
            ),
        );
    }
    Ok(())
}

/// Refuses a write that would leave less than `reserve` bytes free.
pub fn check_disk(free: u64, incoming: u64, reserve: u64) -> (r: Result<(), AppError>)
    ensures
        r is Ok <==> free >= incoming + reserve || incoming + reserve > u64::MAX && free == u64::MAX,
        r matches Err(e) ==> e@ == error_view(
            507,
            "artifact_storage_low"@,
            "The artifact store does not have enough free space while preserving its disk reserve."@,
        ),
{
    let needed = incoming.saturating_add(reserve);
    if free < needed {
        return Err(
            AppError::new(
                507,
                "artifact_storage_low",
                "The artifact store does not have enough free space while preserving its disk reserve.",
            ),
        );
    }
    Ok(())
}

/// A download name character: kept when ASCII alphanumeric or `.`, `-`, `_`.
pub open spec fn safe_name_char(c: char) -> char {
    if is_ascii_alnum(c) || c == '.' || c == '-' || c == '_' {
        c
    } else {
        '_'
    }
}

/// The display name made safe: each character mapped, at most 100 kept, and
/// `artifact` when nothing but underscores remain.
pub open spec fn safe_mapped(display: Seq<char>) -> Seq<char> {
    display.map_values(|c: char| safe_name_char(c))
}

/// At most the first 100 mapped characters.
pub open spec fn safe_kept(display: Seq<char>) -> Seq<char> {
    if safe_mapped(display).len() > 100 {
        safe_mapped(display).subrange(0, 100)
    } else {
        safe_mapped(display)
    }
}

pub open spec fn safe_display_name(display: Seq<char>) -> Seq<char> {
    if forall|i: int| 0 <= i < safe_kept(display).len() ==> #[trigger] safe_kept(display)[i] == '_' {
        "artifact"@
    } else {
        safe_kept(display)
    }
}

/// `ID8-NAME`: the first eight characters of the artifact id and the safe display name.
pub fn download_name(id: &str, display_name: &str) -> (r: String)
    requires
        id@.len() >= 8,
        forall|i: int| #![trigger id@[i]] 0 <= i < 8 ==> (id@[i] as u32) < 128,
    ensures
        r@ == id@.subrange(0, 8) + "-"@ + safe_display_name(display_name@),
{
    let d = chars_of(display_name);
    let mut safe: Vec<char> = Vec::new();
    let mut all_underscore = true;
    let mut i: usize = 0;
    let ghost mapped = safe_mapped(d@);
    while i < d.len() && i < 100
        invariant
            i <= d.len(),
            i <= 100,
            mapped == safe_mapped(d@),
            mapped.len() == d@.len(),
            safe@ == mapped.subrange(0, i as int),
            all_underscore == forall|j: int| 0 <= j < i ==> safe@[j] == '_',
        decreases d.len() - i,
    {
        let c = d[i];
        let m = if ('0' <= c && c <= '9') || ('a' <= c && c <= 'z') || ('A' <= c && c <= 'Z') || c
            == '.' || c == '-' || c == '_' {
            c
        } else {
            '_'
        };
        assert(m == mapped[i as int]);
        let ghost before = safe@;
        safe.push(m);
        assert(safe@[i as int] == m);
        assert(forall|j: int| 0 <= j < i ==> safe@[j] == before[j]);
        if m != '_' {
            all_underscore = false;
        }
        assert(safe@ =~= mapped.subrange(0, i + 1));
        i = i + 1;
    }
    let ghost kept = if mapped.len() > 100 {
        mapped.subrange(0, 100)
    } else {
        mapped
    };
    assert(safe@ =~= kept);
    assert(all_underscore == forall|j: int| 0 <= j < kept.len() ==> kept[j] == '_');
    assert(kept == safe_kept(display_name@));
    assert(safe_display_name(display_name@) == if all_underscore {
        "artifact"@
    } else {
        safe@
    });
    let ids = chars_of(id);
    let mut out = string_from_chars(&slice_chars(&ids, 0, 8));
    out.append("-");
    if all_underscore {
        out.append("artifact");
    } else {
        out.append(string_from_chars(&safe).as_str());
    }
    out
}


/// Why an upload may not start, in the order the checks are made, or `None`. The
/// availability is the one the artifact had when the request arrived; `content_length` is
/// the request's Content-Length header, if any (`Some(None)` when it is not a number).
pub open spec fn upload_start_refusal(
    kind: Seq<char>,
    creator: Seq<char>,
    actor_id: Seq<char>,
    availability: Seq<char>,
    state: Seq<char>,
    reservation_expires_at: Option<i64>,
    now: i64,
    content_length: Option<Option<i64>>,
    expected_size: i64,
) -> Option<ErrorView> {
    if kind != "upload"@ {
        Some(
            conflict_view(
                "artifact_has_no_upload"@,
                "External-link artifacts do not accept uploaded content."@,
            ),
        )
    } else if creator != actor_id {
        Some(forbidden_view("Only the principal that reserved this upload may provide its content."@))
    } else if availability == "expired"@ || availability == "deleted"@ || availability
        == "unavailable"@ || state == "deleted"@ || (state == "reserved"@ && !(
    reservation_expires_at matches Some(until) && until > now)) {
        Some(
            error_view(
                410,
                "artifact_unavailable"@,
                "The upload reservation was deleted or expired."@,
            ),
        )
    } else if content_length == Some(None::<i64>) {
        Some(bad_request_view("Content-Length must be a byte count."@))
    } else if (content_length matches Some(Some(n)) && n != expected_size) {
        Some(
            conflict_view(
                "artifact_size_mismatch"@,
                "Content-Length does not match the reserved artifact size."@,
            ),
        )
    } else {
        None
    }
}

pub fn check_upload_start(
    kind: &str,
    creator: &str,
    actor_id: &str,
    availability: &str,
    state: &str,
    reservation_expires_at: Option<i64>,
    now: i64,
    content_length: Option<Option<i64>>,
    expected_size: i64,
) -> (r: Result<(), AppError>)
    ensures
        match upload_start_refusal(
            kind@,
            creator@,
            actor_id@,
            availability@,
            state@,
            reservation_expires_at,
            now,
            content_length,
            expected_size,
        ) {
            None => r is Ok,
            Some(v) => (r matches Err(e) && e@ == v),
        },
{
    if !str_eq(kind, "upload") {
        return Err(
            AppError::conflict(
                "artifact_has_no_upload",
                "External-link artifacts do not accept uploaded content.",
            ),
        );
    }
    if !str_eq(creator, actor_id) {
        return Err(
            AppError::forbidden("Only the principal that reserved this upload may provide its content."),
        );
    }
    let live = match reservation_expires_at {
        Some(until) => until > now,
        None => false,
    };
    if str_eq(availability, "expired") || str_eq(availability, "deleted") || str_eq(
        availability,
        "unavailable",
    ) || str_eq(state, "deleted") || (str_eq(state, "reserved") && !live) {
        return Err(
            AppError::new(
                410,
                "artifact_unavailable",
                "The upload reservation was deleted or expired.",
            ),
        );
    }
    match content_length {
        Some(None) => {
            return Err(AppError::bad_request("Content-Length must be a byte count."));
        },
        Some(Some(n)) => {
            if n != expected_size {
                return Err(
                    AppError::conflict(
                        "artifact_size_mismatch",
                        "Content-Length does not match the reserved artifact size.",
                    ),
                );
            }
        },
        None => {},
    }
    Ok(())
}

/// An upload of `expected` bytes in progress: the bytes received so far (saturating) and
/// the SHA-256 state of those accepted.
pub struct UploadProgress {
    expected: i64,
    received: i64,
    hasher: ContentHasher,
}

pub open spec fn too_large_view() -> ErrorView {
    error_view(
        413,
        "artifact_too_large"@,
        "The uploaded bytes exceed the reserved artifact size or 16 MiB limit."@,
    )
}

pub open spec fn size_mismatch_view() -> ErrorView {
    conflict_view(
        "artifact_size_mismatch"@,
        "The uploaded bytes do not match the reserved artifact size."@,
    )
}

pub open spec fn digest_mismatch_view() -> ErrorView {
    conflict_view(
        "artifact_digest_mismatch"@,
        "The uploaded bytes do not match the reserved SHA-256 digest."@,
    )
}

/// The count after `len` more bytes, saturating at `i64::MAX`.
pub open spec fn saturating_count(received: int, len: int) -> int {
    if received + len > i64::MAX {
        i64::MAX as int
    } else {
        received + len
    }
}

impl UploadProgress {
    /// The reserved size.
    pub closed spec fn expected_bytes(&self) -> i64 {
        self.expected
    }

    /// The bytes received so far, saturating at `i64::MAX`.
    pub closed spec fn received_bytes(&self) -> i64 {
        self.received
    }

    /// The bytes received so far.
    pub fn received(&self) -> (n: i64)
        ensures
            n == self.received_bytes(),
    {
        self.received
    }

    /// The accepted bytes, in order.
    pub closed spec fn absorbed(&self) -> Seq<u8> {
        self.hasher.absorbed()
    }

    /// While no chunk has been refused, the count is the number of accepted bytes; those
    /// never pass 16 MiB.
    pub closed spec fn wf(&self) -> bool {
        &&& self.hasher.wf()
        &&& self.received >= 0
        &&& self.absorbed().len() <= MAX_ARTIFACT_BYTES
        &&& (self.received <= self.expected && self.received <= MAX_ARTIFACT_BYTES) ==> self.received
            == self.absorbed().len()
    }

    pub fn new(expected: i64) -> (p: UploadProgress)
        ensures
            p.wf(),
            p.expected_bytes() == expected && p.received_bytes() == 0,
            p.absorbed() == Seq::<u8>::empty(),
    {
        UploadProgress { expected, received: 0, hasher: ContentHasher::new() }
    }

    /// Takes the next chunk: counts its bytes (saturating) and refuses once the total passes
    /// the reserved size or 16 MiB, before those bytes are written; an accepted chunk is
    /// added to the digest.
    pub fn add(&mut self, data: &[u8]) -> (r: Result<(), AppError>)
        requires
            old(self).wf(),
        ensures
            final(self).wf(),
            final(self).expected_bytes() == old(self).expected_bytes(),
            final(self).received_bytes() == saturating_count(old(self).received_bytes() as int, data@.len() as int),
            r is Ok <==> final(self).received_bytes() <= old(self).expected_bytes()
                && final(self).received_bytes() <= MAX_ARTIFACT_BYTES,
            r is Ok ==> final(self).absorbed() == old(self).absorbed() + data@,
            r is Err ==> final(self).absorbed() == old(self).absorbed(),
            r matches Err(e) ==> e@ == too_large_view(),
    {
        let len = data.len() as u64;
        let room: u64 = (i64::MAX - self.received) as u64;
        let before = self.received;
        if len > room {
            self.received = i64::MAX;
        } else {
            self.received = self.received + (len as i64);
        }
        if self.received > self.expected || self.received > MAX_ARTIFACT_BYTES {
            return Err(
                AppError::new(
                    413,
                    "artifact_too_large",
                    "The uploaded bytes exceed the reserved artifact size or 16 MiB limit.",
                ),
            );
        }
        assert(before <= self.expected && before <= MAX_ARTIFACT_BYTES);
        self.hasher.update(data);
        Ok(())
    }

    /// The completed upload must have exactly the reserved size and digest; gives the
    /// digest of the accepted bytes.
    pub fn finish(self, expected_digest: &str) -> (r: Result<String, AppError>)
        requires
            self.wf(),
        ensures
            self.received_bytes() != self.expected_bytes() ==> (r matches Err(e) && e@ == size_mismatch_view()),
            self.received_bytes() == self.expected_bytes() && hex_text(sha256_digest(self.absorbed()))
                != expected_digest@ ==> (r matches Err(e) && e@ == digest_mismatch_view()),
            self.received_bytes() == self.expected_bytes() && hex_text(sha256_digest(self.absorbed()))
                == expected_digest@ ==> (r matches Ok(d) && d@ == expected_digest@),
    {
        if self.received != self.expected {
            return Err(
                AppError::conflict(
                    "artifact_size_mismatch",
                    "The uploaded bytes do not match the reserved artifact size.",
                ),
            );
        }
        let digest = self.hasher.finish();
        if !str_eq(digest.as_str(), expected_digest) {
            return Err(
                AppError::conflict(
                    "artifact_digest_mismatch",
                    "The uploaded bytes do not match the reserved SHA-256 digest.",
                ),
            );
        }
        Ok(digest)
    }
}

/// An accepted chunk never carries an upload past its reserved size or the 16 MiB limit.
pub proof fn law_accepted_uploads_stay_within_bounds(received: int, expected: int, len: int)
    requires
        0 <= received,
        0 <= len,
        ({
            let total = if received + len > i64::MAX {
                i64::MAX as int
            } else {
                received + len
            };
            total <= expected && total <= MAX_ARTIFACT_BYTES
        }),
    ensures
        received + len <= expected,
        received + len <= MAX_ARTIFACT_BYTES,
{
}

pub open spec fn stored_too_large_view() -> ErrorView {
    conflict_view(
        "artifact_content_conflict"@,
        "Durable content for this reservation exceeds the artifact limit."@,
    )
}

/// Reads the next chunk of content already stored for a reservation into `hasher`; refuses
/// once the stored content passes the 16 MiB limit.
pub fn absorb_stored_chunk(hasher: &mut ContentHasher, data: &[u8]) -> (r: Result<(), AppError>)
    requires
        old(hasher).wf(),
        old(hasher).absorbed().len() <= MAX_ARTIFACT_BYTES,
    ensures
        final(hasher).wf(),
        final(hasher).absorbed().len() <= MAX_ARTIFACT_BYTES,
        r is Ok <==> old(hasher).absorbed().len() + data@.len() <= MAX_ARTIFACT_BYTES,
        r is Ok ==> final(hasher).absorbed() == old(hasher).absorbed() + data@,
        r is Err ==> final(hasher).absorbed() == old(hasher).absorbed(),
        r matches Err(e) ==> e@ == stored_too_large_view(),
{
    let have = hasher.len();
    if data.len() as u64 > (MAX_ARTIFACT_BYTES as u64) - have {
        return Err(
            AppError::conflict(
                "artifact_content_conflict",
                "Durable content for this reservation exceeds the artifact limit.",
            ),
        );
    }
    hasher.update(data);
    Ok(())
}

/// Durable content already stored for a reservation (read into `existing`) must equal the
/// uploaded bytes.
pub fn check_existing_content(existing: ContentHasher, size: i64, digest: &str) -> (r: Result<
    (),
    AppError,
>)
    requires
        existing.wf(),
    ensures
        r is Ok <==> existing.absorbed().len() == size && hex_text(sha256_digest(existing.absorbed()))
            == digest@,
        r matches Err(e) ==> e@ == conflict_view(
            "artifact_content_conflict"@,
            "Durable content for this reservation differs from the saved upload. Do not replace the reservation."@,
        ),
{
    let (existing_size, existing_digest) = existing.digest();
    if size < 0 || existing_size != size as u64 || !str_eq(existing_digest.as_str(), digest) {
        return Err(
            AppError::conflict(
                "artifact_content_conflict",
                "Durable content for this reservation differs from the saved upload. Do not replace the reservation.",
            ),
        );
    }
    Ok(())
}

/// Why stored bytes may not finalize the reservation, or `None`.
pub open spec fn finalize_refusal(
    creator: Seq<char>,
    actor_id: Seq<char>,
    state: Seq<char>,
    reservation_expires_at: Option<i64>,
    now: i64,
    size: Option<i64>,
    sha256: Option<Seq<char>>,
    received: i64,
    digest: Seq<char>,
) -> Option<ErrorView> {
    if creator != actor_id {
        Some(forbidden_view("Only the principal that reserved this upload may finalize it."@))
    } else if state != "reserved"@ || !(reservation_expires_at matches Some(until) && until > now)
        || size != Some(received) || sha256 != Some(digest) {
        Some(
            conflict_view(
                "artifact_reservation_changed"@,
                "The upload reservation is no longer live or no longer matches these bytes."@,
            ),
        )
    } else {
        None
    }
}

pub fn check_finalize(
    creator: &str,
    actor_id: &str,
    state: &str,
    reservation_expires_at: Option<i64>,
    now: i64,
    size: Option<i64>,
    sha256: Option<&str>,
    received: i64,
    digest: &str,
) -> (r: Result<(), AppError>)
    ensures
        match finalize_refusal(
            creator@,
            actor_id@,
            state@,
            reservation_expires_at,
            now,
            size,
            match sha256 {
                Some(d) => Some(d@),
                None => None,
            },
            received,
            digest@,
        ) {
            None => r is Ok,
            Some(v) => (r matches Err(e) && e@ == v),
        },
{
    if !str_eq(creator, actor_id) {
        return Err(AppError::forbidden("Only the principal that reserved this upload may finalize it."));
    }
    let live = match reservation_expires_at {
        Some(until) => until > now,
        None => false,
    };
    let same_size = match size {
        Some(n) => n == received,
        None => false,
    };
    let same_digest = match sha256 {
        Some(d) => str_eq(d, digest),
        None => false,
    };
    if !str_eq(state, "reserved") || !live || !same_size || !same_digest {
        return Err(
            AppError::conflict(
                "artifact_reservation_changed",
                "The upload reservation is no longer live or no longer matches these bytes.",
            ),
        );
    }
    Ok(())
}

/// An external link: bounded text that parses as an `https` URL with a host and no
/// embedded user name or password.
pub open spec fn link_url_error(value: Seq<char>) -> Option<ErrorView> {
    if !bounded_plain_ok(value, 4096, true) {
        Some(bad_request_view(bounded_plain_message("external_url"@, 4096, true)))
    } else {
        match crate::mcp::parsed_url(value) {
            None => Some(bad_request_view("external_url must be a valid HTTPS URL."@)),
            Some(u) => if u.scheme != "https"@ || u.host_str is None || u.username.len() > 0
                || u.password is Some {
                Some(
                    bad_request_view(
                        "external_url must be an HTTPS URL without embedded credentials."@,
                    ),
                )
            } else {
                None
            },
        }
    }
}

pub fn validate_link_url(value: &str) -> (r: Result<(), AppError>)
    ensures
        match link_url_error(value@) {
            None => r is Ok,
            Some(v) => (r matches Err(e) && e@ == v),
        },
{
    check_bounded_plain(value, "external_url", 4096, true)?;
    let parsed = match crate::mcp::url_parts(value) {
        None => {
            return Err(AppError::bad_request("external_url must be a valid HTTPS URL."));
        },
        Some(u) => u,
    };
    if !str_eq(parsed.scheme.as_str(), "https") || parsed.host_str.is_none() || chars_of(
        parsed.username.as_str(),
    ).len() > 0 || parsed.password.is_some() {
        return Err(
            AppError::bad_request("external_url must be an HTTPS URL without embedded credentials."),
        );
    }
    Ok(())
}

/// An upload names exactly one Idempotency-Key of 1 to 128 visible ASCII characters;
/// `values` holds each header value as text when it is visible ASCII.
pub open spec fn upload_key_ok(values: Seq<Option<String>>) -> bool {
    values.len() == 1 && (values[0] matches Some(v) && v@.len() > 0 && crate::text::utf8_len(v@)
        <= 128 && forall|i: int|
        0 <= i < v@.len() && #[trigger] v@[i] == v@[i] ==> 0x21 <= (v@[i] as u32) <= 0x7e)
}

pub fn require_upload_key(values: &Vec<Option<String>>) -> (r: Result<(), AppError>)
    ensures
        r is Ok <==> upload_key_ok(values@),
        r matches Err(e) ==> e@ == bad_request_view(
            "Provide exactly one Idempotency-Key of 1–128 visible ASCII characters."@,
        ),
{
    let mut valid = false;
    if values.len() == 1 {
        if let Some(v) = &values[0] {
            let c = chars_of(v.as_str());
            let mut ok = c.len() > 0 && crate::text::byte_len(v.as_str()) <= 128;
            let mut i: usize = 0;
            while ok && i < c.len()
                invariant
                    i <= c.len(),
                    c@ == v@,
                    ok ==> c@.len() > 0 && crate::text::utf8_len(v@) <= 128,
                    ok ==> forall|k: int| 0 <= k < i ==> 0x21 <= (#[trigger] c@[k] as u32) <= 0x7e,
                    !ok ==> !(c@.len() > 0 && crate::text::utf8_len(v@) <= 128 && forall|k: int|
                        0 <= k < c@.len() && #[trigger] c@[k] == c@[k] ==> 0x21 <= (c@[k] as u32)
                            <= 0x7e),
                decreases c.len() - i,
            {
                let u = c[i] as u32;
                if !(0x21 <= u && u <= 0x7e) {
                    assert(c@[i as int] == c@[i as int]);
                    ok = false;
                }
                i = i + 1;
            }
            valid = ok;
        }
    }
    if !valid {
        return Err(
            AppError::bad_request("Provide exactly one Idempotency-Key of 1–128 visible ASCII characters."),
        );
    }
    Ok(())
}

/// Reserving `size` more bytes must keep live uploads within the quota.
pub fn check_quota(used: i64, size: i64, quota: i64) -> (r: Result<(), AppError>)
    ensures
        r is Ok <==> (if used + size > i64::MAX {
            i64::MAX as int
        } else if used + size < i64::MIN {
            i64::MIN as int
        } else {
            used + size
        }) <= quota,
        r matches Err(e) ==> e@ == error_view(
            507,
            "artifact_quota_exceeded"@,
            "The configured live artifact quota would be exceeded. Delete or expire retained uploads before retrying."@,
        ),
{
    let total: i64 = if size > 0 && used > i64::MAX - size {
        i64::MAX
    } else if size < 0 && used < i64::MIN - size {
        i64::MIN
    } else {
        used + size
    };
    if total > quota {
        return Err(
            AppError::new(
                507,
                "artifact_quota_exceeded",
                "The configured live artifact quota would be exceeded. Delete or expire retained uploads before retrying.",
            ),
        );
    }
    Ok(())
}

/// The artifact store sits beside the database file: its file name plus `.artifacts`
/// (`coordinator.sqlite3.artifacts` when the name is missing or not text).
pub open spec fn store_name(file_name: Option<Seq<char>>) -> Seq<char> {
    match file_name {
        Some(n) => n + ".artifacts"@,
        None => "coordinator.sqlite3"@ + ".artifacts"@,
    }
}

pub fn store_root(file_name: Option<&str>) -> (r: String)
    ensures
        r@ == store_name(
            match file_name {
                Some(n) => Some(n@),
                None => None,
            },
        ),
{
    let mut name = match file_name {
        Some(n) => n.to_owned(),
        None => "coordinator.sqlite3".to_owned(),
    };
    name.append(".artifacts");
    name
}

pub open spec fn reference_invalid(message: Seq<char>) -> ErrorView {
    conflict_view("artifact_reference_invalid"@, message)
}

/// An artifact's task and job must exist in the project, and the job must belong to the
/// task when both are named. `task_exists` and `job_task` are what the project holds for
/// the named ids.
pub open spec fn association_error(
    task_id: Option<Seq<char>>,
    task_exists: bool,
    job_id: Option<Seq<char>>,
    job_task: Option<Seq<char>>,
) -> Option<ErrorView> {
    if (task_id matches Some(t) && (uuid_parse(t) is None || !task_exists)) {
        Some(reference_invalid("The referenced task does not exist in this project."@))
    } else if (job_id matches Some(j) && (uuid_parse(j) is None || job_task is None)) {
        Some(reference_invalid("The referenced job does not exist in this project."@))
    } else if job_id is Some && (task_id matches Some(t) && job_task != Some(t)) {
        Some(reference_invalid("The referenced job belongs to a different task."@))
    } else {
        None
    }
}

pub fn check_associations(
    task_id: Option<&str>,
    task_exists: bool,
    job_id: Option<&str>,
    job_task: Option<&str>,
) -> (r: Result<(), AppError>)
    ensures
        match association_error(
            match task_id {
                Some(t) => Some(t@),
                None => None,
            },
            task_exists,
            match job_id {
                Some(j) => Some(j@),
                None => None,
            },
            match job_task {
                Some(t) => Some(t@),
                None => None,
            },
        ) {
            None => r is Ok,
            Some(v) => (r matches Err(e) && e@ == v),
        },
{
    if let Some(t) = task_id {
        if uuid_canonical(t).is_none() || !task_exists {
            return Err(
                AppError::conflict(
                    "artifact_reference_invalid",
                    "The referenced task does not exist in this project.",
                ),
            );
        }
    }
    if let Some(j) = job_id {
        if uuid_canonical(j).is_none() || job_task.is_none() {
            return Err(
                AppError::conflict(
                    "artifact_reference_invalid",
                    "The referenced job does not exist in this project.",
                ),
            );
        }
        let different = match (task_id, job_task) {
            (Some(t), Some(owner)) => !str_eq(t, owner),
            _ => false,
        };
        if different {
            return Err(
                AppError::conflict(
                    "artifact_reference_invalid",
                    "The referenced job belongs to a different task.",
                ),
            );
        }
    }
    Ok(())
}
/// Why a media type is refused, as [`validate_media_type`] answers.
pub open spec fn media_type_error(value: Seq<char>) -> Option<ErrorView> {
    if !bounded_plain_ok(value, 127, true) {
        Some(bad_request_view(bounded_plain_message("media_type"@, 127, true)))
    } else {
        match media_type_shape(value) {
            None => Some(bad_request_view("media_type must be a MIME type such as text/plain."@)),
            Some(true) => None,
            Some(false) => Some(
                bad_request_view(
                    "media_type must be a MIME type without parameters or control characters."@,
                ),
            ),
        }
    }
}

/// An external link's metadata, checked in order: display name, media type, URL, a size
/// that is not negative, and a well-formed digest when one is given.
pub open spec fn link_input_error(
    display_name: Seq<char>,
    media_type: Seq<char>,
    external_url: Seq<char>,
    size_bytes: Option<i64>,
    sha256: Option<(Seq<char>, Seq<u8>)>,
) -> Option<ErrorView> {
    if !bounded_plain_ok(display_name, 255, true) {
        Some(bad_request_view(bounded_plain_message("display_name"@, 255, true)))
    } else if media_type_error(media_type) is Some {
        media_type_error(media_type)
    } else if link_url_error(external_url) is Some {
        link_url_error(external_url)
    } else if (size_bytes matches Some(n) && n < 0) {
        Some(bad_request_view("size_bytes cannot be negative."@))
    } else if (sha256 matches Some(d) && !sha256_text_ok(d.1)) {
        Some(bad_request_view("sha256 must be 64 lowercase hexadecimal characters."@))
    } else {
        None
    }
}

pub fn validate_link_input(
    display_name: &str,
    media_type: &str,
    external_url: &str,
    size_bytes: Option<i64>,
    sha256: Option<&str>,
) -> (r: Result<(), AppError>)
    ensures
        match link_input_error(
            display_name@,
            media_type@,
            external_url@,
            size_bytes,
            match sha256 {
                Some(d) => Some((d@, d.spec_bytes())),
                None => None,
            },
        ) {
            None => r is Ok,
            Some(v) => (r matches Err(e) && e@ == v),
        },
{
    bounded(display_name, "display_name", 255, true)?;
    validate_media_type(media_type)?;
    validate_link_url(external_url)?;
    if let Some(n) = size_bytes {
        if n < 0 {
            return Err(AppError::bad_request("size_bytes cannot be negative."));
        }
    }
    if let Some(d) = sha256 {
        validate_sha256(d)?;
    }
    Ok(())
}

/// An upload reservation's metadata, checked in order: file name, media type, size and
/// digest.
pub open spec fn upload_input_error(
    filename: Seq<char>,
    media_type: Seq<char>,
    size_bytes: i64,
    sha256_bytes: Seq<u8>,
) -> Option<ErrorView> {
    if !bounded_plain_ok(filename, 255, true) {
        Some(bad_request_view(bounded_plain_message("filename"@, 255, true)))
    } else if media_type_error(media_type) is Some {
        media_type_error(media_type)
    } else if !(0 <= size_bytes <= MAX_ARTIFACT_BYTES) {
        Some(error_view(413, "artifact_too_large"@, "Uploaded artifacts are limited to 16 MiB."@))
    } else if !sha256_text_ok(sha256_bytes) {
        Some(bad_request_view("sha256 must be 64 lowercase hexadecimal characters."@))
    } else {
        None
    }
}

pub fn validate_upload_input(filename: &str, media_type: &str, size_bytes: i64, sha256: &str) -> (r:
    Result<(), AppError>)
    ensures
        match upload_input_error(filename@, media_type@, size_bytes, sha256.spec_bytes()) {
            None => r is Ok,
            Some(v) => (r matches Err(e) && e@ == v),
        },
{
    bounded(filename, "filename", 255, true)?;
    validate_media_type(media_type)?;
    validate_size(size_bytes)?;
    validate_sha256(sha256)
}

/// Where an available upload's bytes are downloaded from; links and unavailable uploads
/// have no content path.
pub open spec fn content_path_of(kind: Seq<char>, availability: Seq<char>, project: Seq<char>, id: Seq<char>) -> Option<
    Seq<char>,
> {
    if kind == "upload"@ && availability == "available"@ {
        Some("/api/v1/projects/"@ + project + "/artifacts/"@ + id + "/content"@)
    } else {
        None
    }
}

pub fn content_path(kind: &str, availability: &str, project: &str, id: &str) -> (r: Option<String>)
    ensures
        match content_path_of(kind@, availability@, project@, id@) {
            Some(p) => (r matches Some(x) && x@ == p),
            None => r is None,
        },
{
    if str_eq(kind, "upload") && str_eq(availability, "available") {
        let mut p = "/api/v1/projects/".to_owned();
        p.append(project);
        p.append("/artifacts/");
        p.append(id);
        p.append("/content");
        Some(p)
    } else {
        None
    }
}

/// Deleted metadata keeps its tombstone: its retention cannot be changed again.
pub fn check_retention_change(state: &str) -> (r: Result<(), AppError>)
    ensures
        r is Ok <==> state@ != "deleted"@,
        r matches Err(e) ==> e@ == error_view(
            410,
            "artifact_deleted"@,
            "Deleted artifact metadata cannot be retained again."@,
        ),
{
    if str_eq(state, "deleted") {
        return Err(
            AppError::new(410, "artifact_deleted", "Deleted artifact metadata cannot be retained again."),
        );
    }
    Ok(())
}

/// An artifact is deleted once; its tombstone stays.
pub fn check_deletion(state: &str) -> (r: Result<(), AppError>)
    ensures
        r is Ok <==> state@ != "deleted"@,
        r matches Err(e) ==> e@ == conflict_view(
            "artifact_already_deleted"@,
            "This artifact already has a retained deletion tombstone."@,
        ),
{
    if str_eq(state, "deleted") {
        return Err(
            AppError::conflict(
                "artifact_already_deleted",
                "This artifact already has a retained deletion tombstone.",
            ),
        );
    }
    Ok(())
}

/// A download serves only available uploaded content: a pending reservation is not yet
/// finalized, other states are gone, and a link's content is not held here.
pub open spec fn download_refusal(availability: Seq<char>, kind: Seq<char>) -> Option<ErrorView> {
    if availability == "pending"@ {
        Some(
            conflict_view(
                "artifact_not_finalized"@,
                "Upload content and finalize this reservation before downloading it."@,
            ),
        )
    } else if availability != "available"@ {
        Some(
            error_view(
                410,
                "artifact_unavailable"@,
                "The artifact content is expired, deleted, or unavailable."@,
            ),
        )
    } else if kind != "upload"@ {
        Some(
            conflict_view(
                "artifact_is_external_link"@,
                "This artifact is an external link; use its authenticated metadata URL."@,
            ),
        )
    } else {
        None
    }
}

pub fn check_download(availability: &str, kind: &str) -> (r: Result<(), AppError>)
    ensures
        match download_refusal(availability@, kind@) {
            None => r is Ok,
            Some(v) => (r matches Err(e) && e@ == v),
        },
{
    if str_eq(availability, "pending") {
        return Err(
            AppError::conflict(
                "artifact_not_finalized",
                "Upload content and finalize this reservation before downloading it.",
            ),
        );
    }
    if !str_eq(availability, "available") {
        return Err(
            AppError::new(
                410,
                "artifact_unavailable",
                "The artifact content is expired, deleted, or unavailable.",
            ),
        );
    }
    if !str_eq(kind, "upload") {
        return Err(
            AppError::conflict(
                "artifact_is_external_link",
                "This artifact is an external link; use its authenticated metadata URL.",
            ),
        );
    }
    Ok(())
}

/// The `Content-Disposition` of a download: an attachment under its safe name.
pub fn content_disposition(name: &str) -> (r: String)
    ensures
        r@ == "attachment; filename=\""@ + name@ + "\""@,
{
    let mut r = "attachment; filename=\"".to_owned();
    r.append(name);
    r.append("\"");
    r
}

/// The storage key a stored blob's file name names: a UUID followed by `.blob`.
pub open spec fn blob_key_of(name: Seq<char>) -> Option<Seq<char>> {
    if crate::text::has_suffix(name, ".blob"@) && uuid_parse(name.subrange(0, name.len() - 5)) is Some {
        Some(name.subrange(0, name.len() - 5))
    } else {
        None
    }
}

pub fn blob_key(name: &str) -> (r: Option<String>)
    ensures
        match blob_key_of(name@) {
            Some(k) => (r matches Some(x) && x@ == k),
            None => r is None,
        },
{
    if !crate::text::ends_with(name, ".blob") {
        return None;
    }
    proof {
        reveal_strlit(".blob");
        assert(".blob"@.len() == 5);
    }
    let chars = chars_of(name);
    let key = string_from_chars(&slice_chars(&chars, 0, chars.len() - 5));
    if uuid_canonical(key.as_str()).is_none() {
        return None;
    }
    Some(key)
}

/// An artifact a submission references, and whether it is finalized, live (pinned or
/// within retention) and in the submission's project.
pub struct SubmissionArtifact {
    pub id: String,
    pub live: bool,
}

pub open spec fn submission_ids(refs: Seq<SubmissionArtifact>) -> Seq<Seq<char>> {
    refs.map_values(|r: SubmissionArtifact| r.id@)
}

/// The first of the first `n` references refused, in order: not a UUID or a repeat, then
/// not available.
pub open spec fn submission_step_error(refs: Seq<SubmissionArtifact>, n: nat) -> Option<ErrorView>
    decreases n,
{
    if n == 0 {
        None
    } else if submission_step_error(refs, (n - 1) as nat) is Some {
        submission_step_error(refs, (n - 1) as nat)
    } else {
        let j = n - 1;
        let ids = submission_ids(refs);
        if uuid_parse(ids[j]) is None || exists|k: int| 0 <= k < j && ids[k] == ids[j] {
            Some(bad_request_view("Artifact references must be unique artifact UUIDs."@))
        } else if !refs[j].live {
            Some(
                conflict_view(
                    "submission_artifact_unavailable"@,
                    "Every submission artifact must be finalized, live, and belong to this project."@,
                ),
            )
        } else {
            None
        }
    }
}

pub open spec fn submission_artifacts_error(refs: Seq<SubmissionArtifact>) -> Option<ErrorView> {
    if refs.len() > 100 {
        Some(bad_request_view("A submission may reference at most 100 artifacts."@))
    } else {
        submission_step_error(refs, refs.len())
    }
}

proof fn lemma_submission_error_stable(refs: Seq<SubmissionArtifact>, a: nat, b: nat)
    requires
        a <= b,
        submission_step_error(refs, a) is Some,
    ensures
        submission_step_error(refs, b) == submission_step_error(refs, a),
    decreases b - a,
{
    if a < b {
        lemma_submission_error_stable(refs, a, (b - 1) as nat);
    }
}

/// At most 100 references, each a distinct artifact UUID of a finalized, live artifact of
/// the project.
pub fn validate_submission_artifacts(refs: &Vec<SubmissionArtifact>) -> (r: Result<(), AppError>)
    ensures
        match submission_artifacts_error(refs@) {
            None => r is Ok,
            Some(v) => (r matches Err(e) && e@ == v),
        },
{
    if refs.len() > 100 {
        return Err(AppError::bad_request("A submission may reference at most 100 artifacts."));
    }
    let ghost ids = submission_ids(refs@);
    let mut j: usize = 0;
    while j < refs.len()
        invariant
            j <= refs.len(),
            refs.len() <= 100,
            ids == submission_ids(refs@),
            submission_step_error(refs@, j as nat) is None,
        decreases refs.len() - j,
    {
        let item = &refs[j];
        let mut repeat = false;
        let mut k: usize = 0;
        while k < j && !repeat
            invariant
                k <= j < refs.len(),
                ids == submission_ids(refs@),
                item == refs@[j as int],
                repeat ==> exists|m: int| 0 <= m < j && ids[m] == ids[j as int],
                !repeat ==> forall|m: int| 0 <= m < k ==> ids[m] != ids[j as int],
            decreases j - k,
        {
            proof {
                assert(ids[k as int] == refs@[k as int].id@);
                assert(ids[j as int] == item.id@);
            }
            if str_eq(refs[k].id.as_str(), item.id.as_str()) {
                repeat = true;
            }
            k = k + 1;
        }
        proof {
            assert(ids[j as int] == item.id@);
        }
        let step: Option<AppError> = if uuid_canonical(item.id.as_str()).is_none() || repeat {
            Some(AppError::bad_request("Artifact references must be unique artifact UUIDs."))
        } else if !item.live {
            Some(
                AppError::conflict(
                    "submission_artifact_unavailable",
                    "Every submission artifact must be finalized, live, and belong to this project.",
                ),
            )
        } else {
            None
        };
        if let Some(e) = step {
            proof {
                assert(submission_step_error(refs@, (j + 1) as nat) == Some(e@));
                lemma_submission_error_stable(refs@, (j + 1) as nat, refs.len() as nat);
            }
            return Err(e);
        }
        j = j + 1;
    }
    Ok(())
}

} // verus!
