use sha2::Digest;

use kube_config_updater::codec::{base64_decode, base64_encode, parse_rfc3339, rfc3339_utc, sha256_hex};
use kube_config_updater::credentials::CredentialResult;
use kube_config_updater::job::{
    classify_failure, is_auth_error, job_start, job_step, outcome_run_state, run_status_of,
    summarize, summary_is_notable, FailureClass, JobEvent, JobOutcome, JobPhase, SkipReason,
};
use kube_config_updater::kube::{
    active_user_cert_expiry, check_local_cert_expiry, detect_drift, process_fetched_document,
    transform_kubeconfig, CertStatus, Cluster, ClusterInfo, Context, ContextInfo, KubeConfig,
    TransformError, User, UserInfo,
};
use kube_config_updater::merge::{empty_kubeconfig, merge_documents};
use kube_config_updater::state::{get_state, update_states, RunStatus, ServerRunState};

/// A fetched k3s-style document: everything named `default`.
fn k3s_doc() -> KubeConfig {
    KubeConfig {
        api_version: "v1".to_string(),
        kind: "Config".to_string(),
        current_context: "default".to_string(),
        clusters: vec![ClusterInfo {
            name: "default".to_string(),
            cluster: Cluster {
                server: "https://127.0.0.1:6443".to_string(),
                certificate_authority: "FAKECA".to_string(),
            },
        }],
        contexts: vec![ContextInfo {
            name: "default".to_string(),
            context: Context { user: "default".to_string(), cluster: "default".to_string() },
        }],
        users: vec![UserInfo {
            name: "default".to_string(),
            user: User {
                certificate_data: "aGVsbG8gd29ybGQ=".to_string(),
                key_data: "FAKEKEY".to_string(),
            },
        }],
        preferences: vec![],
    }
}

fn pref<'a>(doc: &'a KubeConfig, key: &str) -> Option<&'a str> {
    doc.preferences
        .iter()
        .find(|(k, _)| k == key)
        .map(|(_, v)| v.as_str())
}

// ── The rewrite ───────────────────────────────────────────────────────────────

#[test]
fn test_transform_fetched_document() {
    // Local cache absent, the remote fetch returned a k3s-style document.
    let raw: &[u8] = b"apiVersion: v1\nkind: Config\n";
    let source_hash = sha256_hex(raw);
    let mut doc = k3s_doc();
    transform_kubeconfig(&mut doc, "10.0.0.5", &source_hash, &None, "edge-1", 1_700_000_000)
        .unwrap();

    assert_eq!(doc.current_context, "edge-1");
    assert_eq!(doc.clusters[0].name, "edge-1");
    assert_eq!(doc.clusters[0].cluster.server, "https://10.0.0.5:6443");
    assert_eq!(doc.contexts[0].name, "edge-1");
    assert_eq!(doc.contexts[0].context.cluster, "edge-1");
    assert_eq!(doc.contexts[0].context.user, "edge-1");
    assert_eq!(doc.users[0].name, "edge-1");

    // The recorded source hash is the SHA-256 of the raw fetched bytes.
    let mut hasher = sha2::Sha256::new();
    hasher.update(raw);
    let expected = format!("{:x}", hasher.finalize());
    assert_eq!(pref(&doc, "source-file-sha256"), Some(expected.as_str()));
    assert!(pref(&doc, "script-last-updated").is_some());
}

#[test]
fn test_transform_uses_explicit_context_name() {
    let mut doc = k3s_doc();
    transform_kubeconfig(
        &mut doc,
        "9.9.9.9",
        "test_hash_123",
        &Some("new-context-name".to_string()),
        "test_kube",
        0,
    )
    .unwrap();
    assert_eq!(doc.current_context, "new-context-name");
    assert_eq!(doc.clusters[0].name, "new-context-name");
    assert_eq!(doc.contexts[0].name, "new-context-name");
    assert_eq!(doc.users[0].name, "new-context-name");
    assert_eq!(doc.clusters[0].cluster.server, "https://9.9.9.9:6443");
    assert_eq!(pref(&doc, "source-file-sha256"), Some("test_hash_123"));
}

#[test]
fn test_transform_rejects_structurally_unusable_documents() {
    let mut no_clusters = k3s_doc();
    no_clusters.clusters.clear();
    assert_eq!(
        transform_kubeconfig(&mut no_clusters, "1.2.3.4", "h", &None, "s", 0),
        Err(TransformError::NoClusters)
    );

    let mut no_contexts = k3s_doc();
    no_contexts.contexts.clear();
    assert_eq!(
        transform_kubeconfig(&mut no_contexts, "1.2.3.4", "h", &None, "s", 0),
        Err(TransformError::NoContexts)
    );

    let mut no_users = k3s_doc();
    no_users.users.clear();
    assert_eq!(
        transform_kubeconfig(&mut no_users, "1.2.3.4", "h", &None, "s", 0),
        Err(TransformError::NoUsers)
    );
    assert!(TransformError::NoClusters.message().contains("clusters"));
}

#[test]
fn test_cert_expiry_is_best_effort() {
    // "aGVsbG8gd29ybGQ=" decodes but is no PEM certificate: the rewrite still
    // succeeds, without a certificate-expires-at record.
    let doc = k3s_doc();
    assert_eq!(active_user_cert_expiry(&doc), None);
    let mut doc = doc;
    transform_kubeconfig(&mut doc, "1.2.3.4", "h", &None, "s", 0).unwrap();
    assert_eq!(pref(&doc, "certificate-expires-at"), None);
}

#[test]
fn test_process_fetched_document_hashes_and_flags_drift() {
    let raw: &[u8] = b"apiVersion: v1\nkind: Config\n";
    let mut cached = k3s_doc();
    cached
        .preferences
        .push(("source-file-sha256".to_string(), "an-older-hash".to_string()));

    let mut doc = k3s_doc();
    let (hash, drift) =
        process_fetched_document(&mut doc, Some(&cached), raw, "10.0.0.5", &None, "edge-1", 0)
            .unwrap();

    assert_eq!(hash, sha256_hex(raw));
    assert!(drift, "a changed recorded hash must be flagged");
    assert_eq!(doc.current_context, "edge-1");
    assert_eq!(pref(&doc, "source-file-sha256"), Some(hash.as_str()));

    // Same bytes again: the now-recorded hash matches, no drift.
    let mut doc2 = k3s_doc();
    let (_, drift2) =
        process_fetched_document(&mut doc2, Some(&doc), raw, "10.0.0.5", &None, "edge-1", 0)
            .unwrap();
    assert!(!drift2);
}

// ── The merge ─────────────────────────────────────────────────────────────────

fn transformed(server: &str, ip: &str) -> KubeConfig {
    let mut doc = k3s_doc();
    transform_kubeconfig(&mut doc, ip, "hash", &None, server, 0).unwrap();
    doc
}

#[test]
fn test_merge_is_idempotent_per_name() {
    let mut shared = empty_kubeconfig();
    let first = transformed("edge-1", "10.0.0.5");
    merge_documents(&mut shared, &first);

    // Second fetch of the same server, with a changed address: merging twice
    // keeps exactly one entry per kind under that name, the second one.
    let second = transformed("edge-1", "10.0.0.99");
    merge_documents(&mut shared, &second);
    merge_documents(&mut shared, &second);

    let named: Vec<_> = shared.clusters.iter().filter(|c| c.name == "edge-1").collect();
    assert_eq!(named.len(), 1);
    assert_eq!(named[0].cluster.server, "https://10.0.0.99:6443");
    assert_eq!(shared.contexts.iter().filter(|c| c.name == "edge-1").count(), 1);
    assert_eq!(shared.users.iter().filter(|u| u.name == "edge-1").count(), 1);
}

#[test]
fn test_merge_leaves_other_servers_untouched() {
    let mut shared = empty_kubeconfig();
    let a = transformed("server-a", "10.0.0.1");
    let b = transformed("server-b", "10.0.0.2");
    merge_documents(&mut shared, &a);
    merge_documents(&mut shared, &b);

    let a_cluster = shared.clusters.iter().find(|c| c.name == "server-a").unwrap();
    assert_eq!(a_cluster.cluster.server, "https://10.0.0.1:6443");
    let a_context = shared.contexts.iter().find(|c| c.name == "server-a").unwrap();
    assert_eq!(a_context.context.user, "server-a");
    assert!(shared.users.iter().any(|u| u.name == "server-a"));
}

#[test]
fn test_merge_never_touches_current_context_or_preferences() {
    let mut shared = empty_kubeconfig();
    shared.current_context = "my-active".to_string();
    shared.preferences.push(("keep".to_string(), "me".to_string()));
    let fetched = transformed("edge-1", "10.0.0.5");
    merge_documents(&mut shared, &fetched);
    assert_eq!(shared.current_context, "my-active");
    assert_eq!(shared.preferences, vec![("keep".to_string(), "me".to_string())]);
}

#[test]
fn test_concurrent_jobs_lose_no_update() {
    // Two jobs complete and merge under the serialized merge discipline: the
    // shared document afterwards holds both servers' entries.
    let mut shared = empty_kubeconfig();
    let a = transformed("server-a", "10.0.0.1");
    let b = transformed("server-b", "10.0.0.2");
    merge_documents(&mut shared, &a);
    merge_documents(&mut shared, &b);
    assert!(shared.clusters.iter().any(|c| c.name == "server-a"));
    assert!(shared.clusters.iter().any(|c| c.name == "server-b"));
    assert!(shared.contexts.iter().any(|c| c.name == "server-a"));
    assert!(shared.contexts.iter().any(|c| c.name == "server-b"));
    assert_eq!(shared.clusters.len(), 2);
}

// ── Certificate expiry and the skip decision ──────────────────────────────────

fn cached_doc_with_expiry(ts: i64) -> KubeConfig {
    let mut doc = k3s_doc();
    doc.preferences
        .push(("certificate-expires-at".to_string(), rfc3339_utc(ts)));
    doc
}

#[test]
fn test_valid_cached_cert_skips_before_any_lookup() {
    let now = 1_000_000;
    let doc = cached_doc_with_expiry(now + 3600);
    let status = check_local_cert_expiry(Some(&doc), now);
    assert_eq!(status, CertStatus::Valid(now + 3600));

    let phase = job_step(job_start(false), JobEvent::CacheChecked(status));
    assert!(matches!(
        phase,
        JobPhase::Done(JobOutcome::Skipped(SkipReason::CertValid(t))) if t == now + 3600
    ));
}

#[test]
fn test_expired_or_missing_cache_never_skips() {
    let now = 1_000_000;
    let expired = cached_doc_with_expiry(now - 1);
    assert_eq!(check_local_cert_expiry(Some(&expired), now), CertStatus::Expired(now - 1));
    let phase = job_step(
        job_start(false),
        JobEvent::CacheChecked(CertStatus::Expired(now - 1)),
    );
    assert!(matches!(phase, JobPhase::ResolveCredential));

    // No cached file at all, or one without a usable expiry record.
    assert_eq!(check_local_cert_expiry(None, now), CertStatus::Unknown);
    assert_eq!(check_local_cert_expiry(Some(&k3s_doc()), now), CertStatus::Unknown);
    let mut garbage = k3s_doc();
    garbage
        .preferences
        .push(("certificate-expires-at".to_string(), "not a date".to_string()));
    assert_eq!(check_local_cert_expiry(Some(&garbage), now), CertStatus::Unknown);

    let phase = job_step(job_start(false), JobEvent::CacheChecked(CertStatus::Unknown));
    assert!(matches!(phase, JobPhase::ResolveCredential));
}

#[test]
fn test_forced_run_skips_the_cache_check() {
    assert!(matches!(job_start(true), JobPhase::ResolveCredential));
}

#[test]
fn test_unavailable_keyring_skips_not_fails() {
    // The credential backend reports unavailability for a server with no
    // cached file: the job ends skipped, never failed.
    let phase = job_step(job_start(false), JobEvent::CacheChecked(CertStatus::Unknown));
    let phase = job_step(
        phase,
        JobEvent::CredentialResolved(CredentialResult::Unavailable(
            "no storage access".to_string(),
        )),
    );
    match &phase {
        JobPhase::Done(outcome) => {
            assert!(matches!(outcome, JobOutcome::Skipped(SkipReason::KeyringUnavailable)));
            assert_eq!(run_status_of(outcome), RunStatus::NoCredential);
            assert_ne!(run_status_of(outcome), RunStatus::Failed);
        }
        _ => panic!("job must be finished"),
    }
}

#[test]
fn test_job_runs_to_fetched() {
    let phase = job_step(job_start(false), JobEvent::CacheChecked(CertStatus::Unknown));
    let phase = job_step(
        phase,
        JobEvent::CredentialResolved(CredentialResult::Found("pw".to_string())),
    );
    assert!(matches!(&phase, JobPhase::Fetch(Some(pw)) if pw == "pw"));
    let phase = job_step(phase, JobEvent::FetchFinished(Ok(())));
    assert!(matches!(phase, JobPhase::Process));
    let phase = job_step(phase, JobEvent::ProcessFinished(Ok(())));
    assert!(matches!(phase, JobPhase::Done(JobOutcome::Fetched)));
}

#[test]
fn test_fetch_failure_is_classified() {
    let phase = job_step(
        JobPhase::Fetch(None),
        JobEvent::FetchFinished(Err("Authentication failed for user".to_string())),
    );
    match phase {
        JobPhase::Done(outcome) => assert_eq!(run_status_of(&outcome), RunStatus::AuthRejected),
        _ => panic!("job must be finished"),
    }
    let phase = job_step(
        JobPhase::Fetch(None),
        JobEvent::FetchFinished(Err("connection refused".to_string())),
    );
    match phase {
        JobPhase::Done(outcome) => assert_eq!(run_status_of(&outcome), RunStatus::Failed),
        _ => panic!("job must be finished"),
    }
}

#[test]
fn test_is_auth_error_table() {
    assert!(is_auth_error("Authentication failed"));
    assert!(is_auth_error("AUTH REJECTED by host"));
    assert!(!is_auth_error("connection refused"));
    assert!(!is_auth_error("timed out"));
    assert_eq!(classify_failure("auth rejected"), FailureClass::AuthRejected);
    assert_eq!(classify_failure("disk full"), FailureClass::Other);
}

// ── Outcome recording ─────────────────────────────────────────────────────────

#[test]
fn test_outcome_run_state_records_status_time_and_error() {
    let failed = JobOutcome::Failed(FailureClass::Other, "boom".to_string());
    let rec = outcome_run_state(&failed, 42);
    assert_eq!(rec.status, RunStatus::Failed);
    assert_eq!(rec.last_updated, Some(42));
    assert_eq!(rec.error.as_deref(), Some("boom"));

    let fetched = outcome_run_state(&JobOutcome::Fetched, 42);
    assert_eq!(fetched.status, RunStatus::Fetched);
    assert_eq!(fetched.error, None);
}

#[test]
fn test_update_server_state_merges() {
    let mut states: Vec<(String, ServerRunState)> = vec![(
        "existing".to_string(),
        ServerRunState { status: RunStatus::Skipped, last_updated: Some(1), error: None },
    )];
    let updates = vec![(
        "new_server".to_string(),
        ServerRunState { status: RunStatus::Fetched, last_updated: Some(2), error: None },
    )];
    update_states(&mut states, &updates);
    assert!(get_state(&states, "existing").is_some());
    assert!(get_state(&states, "new_server").is_some());
    assert_eq!(get_state(&states, "existing").unwrap().status, RunStatus::Skipped);
}

#[test]
fn test_summarize_counts_each_class() {
    let outcomes = vec![
        JobOutcome::Fetched,
        JobOutcome::Fetched,
        JobOutcome::Skipped(SkipReason::CertValid(9)),
        JobOutcome::Skipped(SkipReason::KeyringUnavailable),
        JobOutcome::Failed(FailureClass::AuthRejected, "auth rejected".to_string()),
    ];
    let summary = summarize(&outcomes);
    assert_eq!(summary.fetched, 2);
    assert_eq!(summary.skipped_cert_valid, 1);
    assert_eq!(summary.skipped_no_cred, 1);
    assert_eq!(summary.failed, 1);
    assert!(summary_is_notable(&summary));

    let quiet = summarize(&vec![JobOutcome::Skipped(SkipReason::CertValid(9))]);
    assert!(!summary_is_notable(&quiet));
}

// ── Drift detection ───────────────────────────────────────────────────────────

#[test]
fn test_detect_drift_on_changed_source_hash() {
    let mut cached = k3s_doc();
    cached
        .preferences
        .push(("source-file-sha256".to_string(), "first_hash".to_string()));
    assert!(detect_drift(Some(&cached), "second_hash"));
    assert!(!detect_drift(Some(&cached), "first_hash"));
    assert!(!detect_drift(Some(&k3s_doc()), "second_hash"));
    assert!(!detect_drift(None, "second_hash"));
}

// ── The trusted encodings ─────────────────────────────────────────────────────

#[test]
fn test_sha256_hex_known_digest() {
    assert_eq!(
        sha256_hex(b"abc"),
        "ba7816bf8f01cfea414140de5dae2223b00361a396177a9cb410ff61f20015ad"
    );
    assert_eq!(sha256_hex(b"").len(), 64);
}

#[test]
fn test_base64_round_trip() {
    assert_eq!(base64_encode(b"hello world"), "aGVsbG8gd29ybGQ=");
    assert_eq!(base64_decode("aGVsbG8gd29ybGQ=").unwrap(), b"hello world");
    assert!(base64_decode("!!!notbase64!!!").is_none());
}

#[test]
fn test_rfc3339_round_trip() {
    assert_eq!(rfc3339_utc(0), "1970-01-01T00:00:00+00:00");
    assert_eq!(parse_rfc3339("1970-01-01T00:00:00+00:00"), Some(0));
    assert_eq!(parse_rfc3339(&rfc3339_utc(1_700_000_000)), Some(1_700_000_000));
    assert_eq!(parse_rfc3339("not a date"), None);
}
