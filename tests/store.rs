use attestation_core::intoto::{
    check_version, default_version, layout_payload, provenance_kind, ExtractorError, InTotoExtractor, Provenance,
    ProvenanceKind,
};
use attestation_core::paths::get_file_path;
use attestation_core::store::{signed_seconds, ReferenceValue, ReferenceValueStore};
use base64::Engine;

fn rv(name: &str, expiration: i64, digests: &[&str]) -> ReferenceValue {
    ReferenceValue {
        name: name.to_string(),
        version: "0.1.0".to_string(),
        expiration,
        value: digests.iter().map(|d| d.to_string()).collect(),
    }
}

fn digests_for(snapshot: &[(String, Vec<String>)], name: &str) -> Option<Vec<String>> {
    snapshot.iter().find(|(n, _)| n == name).map(|(_, d)| d.clone())
}

#[test]
fn store_ingest_keeps_other_names() {
    let mut s = ReferenceValueStore::new();
    s.ingest("B".to_string(), vec![rv("B", 100, &["b1"])]);
    s.ingest("A".to_string(), vec![rv("A", 100, &["a1", "a2"])]);
    s.ingest("A".to_string(), vec![rv("A", 100, &["a3"])]);
    let snap = s.snapshot(50);
    assert_eq!(snap.len(), 2);
    assert_eq!(digests_for(&snap, "B"), Some(vec!["b1".to_string()]));
    assert_eq!(digests_for(&snap, "A"), Some(vec!["a3".to_string()]));
}

#[test]
fn store_batch_groups_by_name() {
    let mut s = ReferenceValueStore::new();
    s.ingest("B".to_string(), vec![rv("B", 100, &["b1"])]);
    s.ingest("A".to_string(), vec![rv("A", 100, &["stale"])]);
    s.ingest_values(vec![rv("A", 100, &["a1"]), rv("C", 100, &["c1"]), rv("A", 100, &["a2", "a3"])]);
    let snap = s.snapshot(0);
    assert_eq!(snap.len(), 3);
    assert_eq!(digests_for(&snap, "A"), Some(vec!["a1".to_string(), "a2".to_string(), "a3".to_string()]));
    assert_eq!(digests_for(&snap, "B"), Some(vec!["b1".to_string()]));
    assert_eq!(digests_for(&snap, "C"), Some(vec!["c1".to_string()]));
    s.ingest_values(vec![]);
    assert_eq!(s.snapshot(0).len(), 3);
}

#[test]
fn store_drops_expired_values_at_read_time() {
    let mut s = ReferenceValueStore::new();
    s.ingest("A".to_string(), vec![rv("A", 100, &["old"]), rv("A", 200, &["new"])]);
    assert_eq!(digests_for(&s.snapshot(100), "A"), Some(vec!["old".to_string(), "new".to_string()]));
    assert_eq!(digests_for(&s.snapshot(101), "A"), Some(vec!["new".to_string()]));
    assert_eq!(digests_for(&s.snapshot(201), "A"), Some(vec![]));
}

#[test]
fn store_current_time_excludes_past_expiry() {
    let mut s = ReferenceValueStore::new();
    s.ingest("A".to_string(), vec![rv("A", 0, &["gone"]), rv("A", i64::MAX, &["kept"])]);
    assert_eq!(digests_for(&s.get_digests(), "A"), Some(vec!["kept".to_string()]));
}

#[test]
fn file_path_under_tempdir() {
    let (path, dir) = get_file_path("/tmp/tempdir", "dir1/file");
    assert_eq!(path, "/tmp/tempdir/dir1/file");
    assert_eq!(dir, "/tmp/tempdir/dir1");
    let (path, dir) = get_file_path("/tmp/tempdir", "./a/../b.pub");
    assert_eq!(path, "/tmp/tempdir/b.pub");
    assert_eq!(dir, "/tmp/tempdir");
}

fn provenance(version: &str, files: &[(&str, &[u8])]) -> Provenance {
    Provenance {
        version: version.to_string(),
        line_normalization: true,
        files: files
            .iter()
            .map(|(p, c)| (p.to_string(), base64::engine::general_purpose::STANDARD.encode(c)))
            .collect(),
    }
}

#[test]
fn extractor_plans_files() {
    let p = provenance(
        "0.9",
        &[("alice.pub", b"key"), ("root.layout", b"layout"), ("x/bob.pub", b"k2"), ("a.link", b"l")],
    );
    let plan = InTotoExtractor::new().plan(&p, "/tmp/t").unwrap();
    assert_eq!(plan.files.len(), 4);
    assert_eq!(plan.files[1].path, "/tmp/t/root.layout");
    assert_eq!(plan.files[1].content, b"layout".to_vec());
    assert_eq!(plan.files[2].dir, "/tmp/t/x");
    assert_eq!(plan.layout_path, "/tmp/t/root.layout");
    assert_eq!(plan.pub_key_paths, vec!["/tmp/t/alice.pub".to_string(), "/tmp/t/x/bob.pub".to_string()]);
    assert!(plan.line_normalization);
}

#[test]
fn extractor_errors() {
    let e = InTotoExtractor::new();
    let p = provenance("1.0", &[("root.layout", b"l")]);
    assert_eq!(e.plan(&p, "/tmp/t").unwrap_err(), ExtractorError::VersionMismatch);
    let p = provenance("0.9", &[("alice.pub", b"key")]);
    assert_eq!(e.plan(&p, "/tmp/t").unwrap_err(), ExtractorError::MissingLayout);
    let mut p = provenance("0.9", &[("root.layout", b"l")]);
    p.files[0].1 = "!!".to_string();
    assert_eq!(e.plan(&p, "/tmp/t").unwrap_err(), ExtractorError::ContentEncoding);
    assert_eq!(e.finish(false).unwrap_err(), ExtractorError::VerificationFailed);
    assert!(e.finish(true).unwrap().is_empty());
}

#[test]
fn default_version_is_supported() {
    assert_eq!(default_version(), "0.9");
}

#[test]
fn layout_envelope_fields() {
    let t = Some("application/vnd.in-toto+json".to_string());
    let p = Some(base64::engine::general_purpose::STANDARD.encode(b"{\"expires\":1}"));
    assert_eq!(layout_payload(&t, &p).unwrap(), b"{\"expires\":1}".to_vec());
    let other = Some("application/json".to_string());
    assert_eq!(layout_payload(&other, &p).unwrap_err(), ExtractorError::UnsupportedPayloadType);
    assert_eq!(layout_payload(&None, &p).unwrap_err(), ExtractorError::UnsupportedPayloadType);
    assert_eq!(layout_payload(&t, &None).unwrap_err(), ExtractorError::MalformedPayload);
    assert_eq!(layout_payload(&t, &Some("%%".to_string())).unwrap_err(), ExtractorError::MalformedPayload);
}

#[test]
fn store_lists_each_digest_once() {
    let mut s = ReferenceValueStore::new();
    s.ingest("A".to_string(), vec![rv("A", 100, &["x", "x", "y"]), rv("A", 100, &["y", "z"])]);
    assert_eq!(
        digests_for(&s.snapshot(0), "A"),
        Some(vec!["x".to_string(), "y".to_string(), "z".to_string()])
    );
}

#[test]
fn clock_seconds_are_signed_and_saturated() {
    assert_eq!(signed_seconds(true, 5), 5);
    assert_eq!(signed_seconds(false, 5), -5);
    assert_eq!(signed_seconds(true, u64::MAX), i64::MAX);
    assert_eq!(signed_seconds(false, u64::MAX), -i64::MAX);
}

#[test]
fn version_and_kind_selection() {
    assert!(check_version(&provenance("0.9", &[])).is_ok());
    assert_eq!(check_version(&provenance("0.8", &[])).unwrap_err(), ExtractorError::VersionMismatch);
    assert_eq!(provenance_kind(&"in-toto".to_string()), Some(ProvenanceKind::InToto));
    assert_eq!(provenance_kind(&"sample".to_string()), None);
}
