use coordinator_server::artifacts::absorb_stored_chunk;
use coordinator_server::crypto::{content_digest, ContentHasher};
use coordinator_server::artifacts::{validate_submission_artifacts, SubmissionArtifact};
use coordinator_server::artifacts::blob_key;
use coordinator_server::artifacts::{check_download, content_disposition};
use coordinator_server::coordination::page_split;
use coordinator_server::artifacts::{content_path, validate_link_input, validate_upload_input};
use coordinator_server::artifacts::{check_deletion, check_retention_change};
use coordinator_server::artifacts::{
    availability, check_associations, check_disk, check_existing_content, check_finalize,
    check_quota, check_upload_start, download_name, page_limit, require_upload_key,
    retention_until, staging_path, store_root, storage_path, validate_link_url,
    validate_media_type, validate_sha256, validate_size, ArtifactState, UploadProgress,
    MAX_ARTIFACT_BYTES,
};

const ID: &str = "0f8fad5b-d9cb-469f-a165-70867728950e";
const OTHER: &str = "7c9e6679-7425-40de-944b-e07fc1f90ae7";

fn state(state: &str, kind: &str) -> ArtifactState {
    ArtifactState {
        state: state.to_string(),
        kind: kind.to_string(),
        reservation_expires_at: None,
        retention_until: None,
        pinned: false,
        storage_key: Some(ID.to_string()),
    }
}

#[test]
fn media_types_sizes_and_digests_are_checked() {
    assert!(validate_media_type("text/plain").is_ok());
    assert!(validate_media_type("application/vnd.api+json").is_ok());
    assert!(validate_media_type("text").is_err());
    assert!(validate_media_type("text/plain; charset=utf-8").is_err());
    assert!(validate_size(0).is_ok());
    assert!(validate_size(MAX_ARTIFACT_BYTES).is_ok());
    let e = validate_size(MAX_ARTIFACT_BYTES + 1).unwrap_err();
    assert_eq!(e.status, 413);
    assert_eq!(e.code, "artifact_too_large");
    assert!(validate_size(-1).is_err());
    let digest = "a".repeat(64);
    assert!(validate_sha256(&digest).is_ok());
    assert!(validate_sha256(&"A".repeat(64)).is_err());
    assert!(validate_sha256(&"a".repeat(63)).is_err());
}

#[test]
fn retention_days_default_and_pinning() {
    let day: i64 = 86_400_000;
    assert_eq!(retention_until(1000, false, None).unwrap(), Some(1000 + 90 * day));
    assert_eq!(retention_until(1000, false, Some(1)).unwrap(), Some(1000 + day));
    assert_eq!(retention_until(1000, true, None).unwrap(), None);
    assert_eq!(
        retention_until(1000, true, Some(3)).unwrap_err().message,
        "retention_days must be omitted when pinned is true."
    );
    assert!(retention_until(1000, false, Some(0)).is_err());
    assert!(retention_until(1000, false, Some(3651)).is_err());
}

#[test]
fn pages_and_storage_keys() {
    assert_eq!(page_limit(None, None).unwrap(), 50);
    assert_eq!(page_limit(Some(200), Some(ID)).unwrap(), 200);
    assert!(page_limit(Some(201), None).is_err());
    assert!(page_limit(Some(10), Some("not-a-uuid")).is_err());
    assert_eq!(storage_path(ID).unwrap(), format!("blobs/0f/{ID}.blob"));
    assert_eq!(
        storage_path("0F8FAD5B-D9CB-469F-A165-70867728950E").unwrap(),
        format!("blobs/0f/{ID}.blob")
    );
    assert_eq!(storage_path("bad").unwrap_err().status, 500);
    assert_eq!(staging_path(ID, "part").unwrap(), format!("staging/{ID}.part"));
}

#[test]
fn availability_follows_state_and_time() {
    assert_eq!(availability(&state("deleted", "upload"), 0, true), "deleted");
    let mut reserved = state("reserved", "upload");
    reserved.reservation_expires_at = Some(100);
    assert_eq!(availability(&reserved, 99, false), "pending");
    assert_eq!(availability(&reserved, 100, false), "expired");
    let mut stored = state("stored", "upload");
    stored.retention_until = Some(50);
    assert_eq!(availability(&stored, 50, true), "expired");
    stored.pinned = true;
    assert_eq!(availability(&stored, 50, true), "available");
    assert_eq!(availability(&stored, 50, false), "unavailable");
    assert_eq!(availability(&state("stored", "link"), 0, false), "available");
}

#[test]
fn disk_and_quota_keep_their_reserves() {
    assert!(check_disk(300, 100, 200).is_ok());
    assert_eq!(check_disk(299, 100, 200).unwrap_err().code, "artifact_storage_low");
    assert!(check_disk(u64::MAX, u64::MAX, 1).is_ok());
    assert!(check_quota(10, 5, 15).is_ok());
    let e = check_quota(10, 6, 15).unwrap_err();
    assert_eq!(e.status, 507);
    assert_eq!(e.code, "artifact_quota_exceeded");
    assert!(check_quota(i64::MAX, 1, i64::MAX).is_ok());
    assert!(check_quota(i64::MAX, 1, i64::MAX - 1).is_err());
}

#[test]
fn download_names_are_safe() {
    assert_eq!(download_name(ID, "report v1.txt"), "0f8fad5b-report_v1.txt");
    assert_eq!(download_name(ID, "???"), "0f8fad5b-artifact");
    assert_eq!(download_name(ID, ""), "0f8fad5b-artifact");
    let long = "x".repeat(150);
    assert_eq!(download_name(ID, &long), format!("0f8fad5b-{}", "x".repeat(100)));
}

#[test]
fn uploads_start_only_for_live_reservations_of_their_author() {
    let ok = check_upload_start("upload", "me", "me", "pending", "reserved", Some(10), 5, Some(Some(4)), 4);
    assert!(ok.is_ok());
    let e = check_upload_start("link", "me", "me", "pending", "reserved", Some(10), 5, None, 4).unwrap_err();
    assert_eq!(e.code, "artifact_has_no_upload");
    let e = check_upload_start("upload", "me", "you", "pending", "reserved", Some(10), 5, None, 4).unwrap_err();
    assert_eq!(e.status, 403);
    let e = check_upload_start("upload", "me", "me", "pending", "reserved", Some(5), 5, None, 4).unwrap_err();
    assert_eq!(e.status, 410);
    let e = check_upload_start("upload", "me", "me", "pending", "reserved", Some(10), 5, Some(None), 4).unwrap_err();
    assert_eq!(e.message, "Content-Length must be a byte count.");
    let e = check_upload_start("upload", "me", "me", "pending", "reserved", Some(10), 5, Some(Some(3)), 4).unwrap_err();
    assert_eq!(e.code, "artifact_size_mismatch");
}

const ABC_SHA256: &str = "ba7816bf8f01cfea414140de5dae2223b00361a396177a9cb410ff61f20015ad";

fn progress(chunks: &[&[u8]], expected: i64) -> UploadProgress {
    let mut p = UploadProgress::new(expected);
    for chunk in chunks {
        assert!(p.add(chunk).is_ok());
    }
    p
}

#[test]
fn upload_progress_stops_at_the_reserved_size() {
    let p = progress(&[b"a".as_slice(), b"bc".as_slice()], 3);
    assert_eq!(p.received(), 3);
    assert_eq!(p.finish(ABC_SHA256).unwrap(), ABC_SHA256);
    let p = progress(&[b"abc".as_slice()], 3);
    assert_eq!(p.finish(&"0".repeat(64)).unwrap_err().code, "artifact_digest_mismatch");
    let mut p = progress(&[b"abc".as_slice()], 3);
    assert_eq!(p.add(b"d").unwrap_err().status, 413);
    assert_eq!(p.finish(ABC_SHA256).unwrap_err().code, "artifact_size_mismatch");
    let p = progress(&[b"ab".as_slice()], 3);
    assert_eq!(p.finish(ABC_SHA256).unwrap_err().code, "artifact_size_mismatch");
    let mut big = UploadProgress::new(i64::MAX);
    let chunk = vec![0u8; (MAX_ARTIFACT_BYTES + 1) as usize];
    assert_eq!(big.add(&chunk).unwrap_err().status, 413);
    assert_eq!(big.received(), MAX_ARTIFACT_BYTES + 1);
}

#[test]
fn content_digests_hash_the_bytes() {
    let (n, d) = content_digest(b"abc");
    assert_eq!(n, 3);
    assert_eq!(d, ABC_SHA256);
    assert_eq!(
        content_digest(b"").1,
        "e3b0c44298fc1c149afbf4c8996fb92427ae41e4649b934ca495991b7852b855"
    );
    let mut h = ContentHasher::new();
    h.update(b"ab");
    h.update(b"");
    h.update(b"c");
    assert_eq!(h.len(), 3);
    assert_eq!(h.digest(), (3, ABC_SHA256.to_owned()));
}

#[test]
fn stored_content_is_read_within_the_limit() {
    let mut h = ContentHasher::new();
    assert!(absorb_stored_chunk(&mut h, b"abc").is_ok());
    assert!(check_existing_content(h, 3, ABC_SHA256).is_ok());
    let mut h = ContentHasher::new();
    assert!(absorb_stored_chunk(&mut h, b"abd").is_ok());
    assert_eq!(check_existing_content(h, 3, ABC_SHA256).unwrap_err().code, "artifact_content_conflict");
    let mut h = ContentHasher::new();
    assert!(absorb_stored_chunk(&mut h, b"abc").is_ok());
    assert!(check_existing_content(h, 4, ABC_SHA256).is_err());
    let mut h = ContentHasher::new();
    let big = vec![0u8; MAX_ARTIFACT_BYTES as usize];
    assert!(absorb_stored_chunk(&mut h, &big).is_ok());
    let e = absorb_stored_chunk(&mut h, b"x").unwrap_err();
    assert_eq!(e.message, "Durable content for this reservation exceeds the artifact limit.");
    assert_eq!(h.len(), MAX_ARTIFACT_BYTES as u64);
}

#[test]
fn finalization_needs_the_same_bytes() {
    let d = "b".repeat(64);
    assert!(check_finalize("me", "me", "reserved", Some(10), 5, Some(4), Some(&d), 4, &d).is_ok());
    assert_eq!(
        check_finalize("me", "you", "reserved", Some(10), 5, Some(4), Some(&d), 4, &d).unwrap_err().status,
        403
    );
    assert_eq!(
        check_finalize("me", "me", "reserved", Some(10), 5, Some(4), Some("c"), 4, &d).unwrap_err().code,
        "artifact_reservation_changed"
    );
    assert!(check_finalize("me", "me", "stored", Some(10), 5, Some(4), Some(&d), 4, &d).is_err());
}

#[test]
fn links_must_be_plain_https() {
    assert!(validate_link_url("https://example.com/a").is_ok());
    assert_eq!(
        validate_link_url("http://example.com/a").unwrap_err().message,
        "external_url must be an HTTPS URL without embedded credentials."
    );
    assert!(validate_link_url("https://user:pw@example.com/").is_err());
    assert_eq!(
        validate_link_url("not a url").unwrap_err().message,
        "external_url must be a valid HTTPS URL."
    );
    assert!(validate_link_url("").is_err());
}

#[test]
fn upload_keys_are_single_and_visible() {
    assert!(require_upload_key(&vec![Some("key-1".to_string())]).is_ok());
    assert!(require_upload_key(&vec![]).is_err());
    assert!(require_upload_key(&vec![None]).is_err());
    assert!(require_upload_key(&vec![Some("a b".to_string())]).is_err());
    assert!(require_upload_key(&vec![Some("x".repeat(128))]).is_ok());
    assert!(require_upload_key(&vec![Some("x".repeat(129))]).is_err());
    assert!(require_upload_key(&vec![Some("a".to_string()), Some("b".to_string())]).is_err());
}

#[test]
fn store_sits_beside_the_database() {
    assert_eq!(store_root(Some("db.sqlite3")), "db.sqlite3.artifacts");
    assert_eq!(store_root(None), "coordinator.sqlite3.artifacts");
}

#[test]
fn associations_must_exist_and_agree() {
    assert!(check_associations(None, false, None, None).is_ok());
    assert!(check_associations(Some(ID), true, Some(OTHER), Some(ID)).is_ok());
    assert_eq!(
        check_associations(Some(ID), false, None, None).unwrap_err().message,
        "The referenced task does not exist in this project."
    );
    assert_eq!(
        check_associations(None, false, Some(OTHER), None).unwrap_err().message,
        "The referenced job does not exist in this project."
    );
    assert_eq!(
        check_associations(Some(ID), true, Some(OTHER), Some(OTHER)).unwrap_err().message,
        "The referenced job belongs to a different task."
    );
}

#[test]
fn link_and_upload_metadata_are_checked_in_order() {
    let d = "c".repeat(64);
    assert!(validate_link_input("Report", "text/html", "https://example.com/r", Some(3), Some(&d)).is_ok());
    assert_eq!(
        validate_link_input("Report", "text/html", "https://example.com/r", Some(-1), None).unwrap_err().message,
        "size_bytes cannot be negative."
    );
    assert_eq!(
        validate_link_input("Report", "html", "https://example.com/r", None, None).unwrap_err().message,
        "media_type must be a MIME type such as text/plain."
    );
    assert!(validate_link_input("Report", "text/html", "https://example.com/r", None, Some("x")).is_err());
    assert!(validate_upload_input("a.txt", "text/plain", 10, &d).is_ok());
    assert_eq!(validate_upload_input("a.txt", "text/plain", MAX_ARTIFACT_BYTES + 1, &d).unwrap_err().status, 413);
    assert!(validate_upload_input("", "text/plain", 10, &d).is_err());
    assert_eq!(
        content_path("upload", "available", "p", "a").unwrap(),
        "/api/v1/projects/p/artifacts/a/content"
    );
    assert!(content_path("upload", "expired", "p", "a").is_none());
    assert!(content_path("external_link", "available", "p", "a").is_none());
}

#[test]
fn deleted_artifacts_keep_their_tombstones() {
    assert!(check_retention_change("finalized").is_ok());
    assert_eq!(check_retention_change("deleted").unwrap_err().status, 410);
    assert!(check_deletion("reserved").is_ok());
    assert_eq!(check_deletion("deleted").unwrap_err().code, "artifact_already_deleted");
}

#[test]
fn downloads_serve_only_available_uploads() {
    assert!(check_download("available", "upload").is_ok());
    assert_eq!(check_download("pending", "upload").unwrap_err().code, "artifact_not_finalized");
    assert_eq!(check_download("expired", "upload").unwrap_err().status, 410);
    assert_eq!(check_download("available", "external_link").unwrap_err().code, "artifact_is_external_link");
    assert_eq!(content_disposition("0f8fad5b-a.txt"), "attachment; filename=\"0f8fad5b-a.txt\"");
}

#[test]
fn listings_read_one_row_past_their_limit() {
    let ids: Vec<String> = vec!["a".to_owned(), "b".to_owned(), "c".to_owned()];
    assert_eq!(page_split(&ids, 2), (2, Some("b".to_owned())));
    assert_eq!(page_split(&ids, 3), (3, None));
    assert_eq!(page_split(&vec![], 5), (0, None));
}

#[test]
fn stored_blob_names_carry_their_key() {
    assert_eq!(blob_key(&format!("{ID}.blob")).unwrap(), ID);
    assert!(blob_key(ID).is_none());
    assert!(blob_key("x.blob").is_none());
}

#[test]
fn submissions_reference_distinct_live_artifacts() {
    let live = |id: &str| SubmissionArtifact { id: id.to_owned(), live: true };
    assert!(validate_submission_artifacts(&vec![live(ID), live(OTHER)]).is_ok());
    assert_eq!(
        validate_submission_artifacts(&vec![live(ID), live(ID)]).unwrap_err().message,
        "Artifact references must be unique artifact UUIDs."
    );
    assert!(validate_submission_artifacts(&vec![live("nope")]).is_err());
    let gone = SubmissionArtifact { id: ID.to_owned(), live: false };
    assert_eq!(validate_submission_artifacts(&vec![gone]).unwrap_err().code, "submission_artifact_unavailable");
    let many: Vec<SubmissionArtifact> = (0..101).map(|_| live(ID)).collect();
    assert_eq!(
        validate_submission_artifacts(&many).unwrap_err().message,
        "A submission may reference at most 100 artifacts."
    );
}
