use maranode::classification::{bool_true, ClassificationPolicy, DataLabel, WorkspacePolicy};
use std::str::FromStr;

fn policy() -> ClassificationPolicy {
    let mut p = ClassificationPolicy::new();
    p.set_collection_label("public-docs", DataLabel::Public, true);
    p.set_collection_label("patients", DataLabel::Phi, true);
    p.set_collection_label("hr", DataLabel::Pii, false);
    p.set_workspace_policy("clinic", WorkspacePolicy { max_clearance: DataLabel::Phi });
    p.set_workspace_policy("sales", WorkspacePolicy { max_clearance: DataLabel::Restricted });
    p
}

#[test]
fn labels_parse_case_insensitively() {
    assert_eq!(DataLabel::from_str("phi"), Ok(DataLabel::Phi));
    assert_eq!(DataLabel::from_str("Confidential"), Ok(DataLabel::Confidential));
    assert_eq!(
        DataLabel::from_str("secret"),
        Err("unknown data label 'SECRET' (expected: PUBLIC, INTERNAL, CONFIDENTIAL, RESTRICTED, PII, PHI)".to_string())
    );
    assert_eq!(DataLabel::Pii.as_str(), "PII");
    assert_eq!(DataLabel::Public.level(), 0);
    assert_eq!(DataLabel::Phi.level(), 5);
    assert_eq!(DataLabel::from_str("internal"), Ok(DataLabel::Internal));
    assert!(bool_true());
}

#[test]
fn clearance_blocks_higher_labels() {
    let p = policy();
    assert_eq!(p.workspace_clearance("clinic"), DataLabel::Phi);
    assert_eq!(p.workspace_clearance("unknown-ws"), DataLabel::Public);
    assert!(p.check_access("clinic", "patients").is_none());
    let v = p.check_access("sales", "patients").unwrap();
    assert_eq!(v.collection, "patients");
    assert_eq!(v.required_label, DataLabel::Phi);
    assert_eq!(v.workspace_clearance, DataLabel::Restricted);
    assert!(v.block);
    assert!(p.check_access("sales", "unlabelled").is_none());
    assert!(p.check_access("unknown-ws", "public-docs").is_none());
}

#[test]
fn check_all_lists_every_violation_in_order() {
    let p = policy();
    let all = p.check_all_collections("sales");
    let names: Vec<&str> = all.iter().map(|v| v.collection.as_str()).collect();
    assert_eq!(names, vec!["patients", "hr"]);
    assert!(!all[1].block);
    assert!(p.check_all_collections("clinic").is_empty());
    for v in &all {
        assert!(p.check_access("sales", &v.collection).is_some());
    }
}

#[test]
fn relabelling_replaces_the_label() {
    let mut p = policy();
    p.set_collection_label("patients", DataLabel::Public, false);
    let c = p.collection_label("patients").unwrap();
    assert_eq!(c.label, DataLabel::Public);
    assert!(!c.block_on_violation);
    assert_eq!(p.check_all_collections("sales").len(), 1);
    assert!(p.collection_label("missing").is_none());
    let copy = p.clone();
    assert_eq!(copy.collection_label("hr").unwrap().label, DataLabel::Pii);
}

#[test]
fn policy_lives_under_the_data_dir() {
    assert_eq!(ClassificationPolicy::policy_path("/var/lib/maranode"), "/var/lib/maranode/classification/policy.json");
    assert_eq!(ClassificationPolicy::policy_path("/data/"), "/data/classification/policy.json");
    let d = ClassificationPolicy::default();
    assert!(d.check_all_collections("x").is_empty());
}

#[test]
fn restricted_ranks_above_confidential() {
    let order = [DataLabel::Public, DataLabel::Internal, DataLabel::Confidential, DataLabel::Restricted];
    for w in order.windows(2) {
        assert!(w[0].level() < w[1].level());
    }
    let mut p = ClassificationPolicy::new();
    p.set_collection_label("board", DataLabel::Restricted, true);
    p.set_collection_label("wiki", DataLabel::Internal, true);
    p.set_workspace_policy("ws", WorkspacePolicy { max_clearance: DataLabel::Confidential });
    let v = p.check_access("ws", "board").unwrap();
    assert_eq!(v.required_label, DataLabel::Restricted);
    assert!(p.check_access("ws", "wiki").is_none());
}

#[test]
fn every_label_name_reads_back_in_any_case() {
    for l in [DataLabel::Public, DataLabel::Internal, DataLabel::Confidential, DataLabel::Restricted, DataLabel::Pii,
        DataLabel::Phi] {
        assert_eq!(DataLabel::from_str(l.as_str()), Ok(l));
        assert_eq!(DataLabel::from_str(&l.as_str().to_lowercase()), Ok(l));
    }
}
