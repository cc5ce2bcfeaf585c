use maranode::baseline::{baseline_request_id, baseline_signing_key_path, baseline_verifying_key_path, default_drift_action,
    drift_refusal_message, parse_baseline_vectors, registry_entry_index, tally_vectors, BaselineChecker, DriftAction};
use maranode::digest::output_sha256;
use maranode::text::join_path;

#[test]
fn checker_paths() {
    let c = BaselineChecker::new("/data", None, DriftAction::Warn);
    assert_eq!(c.baselines_dir, "/data/baselines");
    assert_eq!(c.baseline_path("abc"), "/data/baselines/abc.mrn-baseline");
    let d = BaselineChecker::new("/data", Some("/b"), DriftAction::Refuse);
    assert_eq!(d.baseline_path("abc"), "/b/abc.mrn-baseline");
    assert_eq!(baseline_signing_key_path("/d"), "/d/baseline_signing.key");
    assert_eq!(baseline_verifying_key_path("/d"), "/d/baseline_signing.pub");
    assert_eq!(default_drift_action(), DriftAction::Warn);
}

#[test]
fn vectors_are_tallied_by_output_hash() {
    let expected = vec![output_sha256("4"), output_sha256("Paris"), output_sha256("blue")];
    let outputs = vec![Some("4".to_string()), Some("Lyon".to_string()), None];
    assert_eq!(tally_vectors(&outputs, &expected), (1, 2));
}

#[test]
fn drift_decisions() {
    let warn = BaselineChecker::new("/d", None, DriftAction::Warn);
    let r = warn.conclude(3, 0, 0);
    assert!(r.ok);
    assert_eq!(r.drift_recorded, None);
    let r2 = warn.conclude(1, 2, 1);
    assert!(!r2.ok);
    assert_eq!(r2.drift_recorded, Some(DriftAction::Warn));
    assert!(!r2.refuse);
    let refuse = BaselineChecker::new("/d", None, DriftAction::Refuse);
    assert!(refuse.conclude(1, 2, 1).refuse);
    assert!(!refuse.conclude(1, 1, 1).refuse);
    assert_eq!(DriftAction::Allow.as_str(), "allow");
    assert_eq!(baseline_request_id("llama3:8b", 2), "baseline-llama3:8b-2");
    assert_eq!(
        drift_refusal_message("m:1", 2, 5),
        "BEHAVIORAL DRIFT detected for m:1: 2/5 vectors failed \u{2014} refusing to load (drift_action=refuse)"
    );
}

#[test]
fn vector_arguments() {
    let ok = parse_baseline_vectors(&["2+2=4".to_string(), "a=b=c".to_string()]).unwrap();
    assert_eq!(ok[0], ("2+2".to_string(), output_sha256("4")));
    assert_eq!(ok[1], ("a".to_string(), output_sha256("b=c")));
    assert_eq!(parse_baseline_vectors(&[]), Err("at least one --vector is required".to_string()));
    assert_eq!(
        parse_baseline_vectors(&["x=1".to_string(), "bad".to_string()]),
        Err("vector 'bad' must be in form PROMPT=EXPECTED_TEXT".to_string())
    );
}

#[test]
fn registry_lookup_by_prefix() {
    let entries = vec![None, Some("ffee00".to_string()), Some("abcdef".to_string()), Some("abc999".to_string())];
    assert_eq!(registry_entry_index(&entries, "abc"), Some(2));
    assert_eq!(registry_entry_index(&entries, "zz"), None);
}

#[test]
fn baseline_paths_join_like_path_join() {
    let c = BaselineChecker::new("/data", Some("/b"), DriftAction::Warn);
    assert_eq!(c.baseline_path("abc"), "/b/abc.mrn-baseline");
    assert_eq!(c.baseline_path("/abc"), "/abc.mrn-baseline");
    for (base, rel) in [("/data", "x"), ("/data/", "x"), ("", "x"), ("/data", "/etc/x"), ("/data", "")] {
        let expect = std::path::Path::new(base).join(rel);
        assert_eq!(join_path(base, rel), expect.to_string_lossy());
    }
}

#[test]
fn distinct_digests_get_distinct_baseline_files() {
    let c = BaselineChecker::new("/data", None, default_drift_action());
    let a = "a".repeat(64);
    let b = format!("{}b", "a".repeat(63));
    assert_ne!(c.baseline_path(&a), c.baseline_path(&b));
    assert_eq!(c.baseline_path(&a), format!("/data/baselines/{a}.mrn-baseline"));
}
