use rocksdb_in_tikv::bootstrap::{OpenPlan, cfs_diff, plan_open};

fn names(v: &[&str]) -> Vec<String> {
    v.iter().map(|s| s.to_string()).collect()
}

#[test]
fn cfs_diff_keeps_order_and_duplicates() {
    let a = names(&["default", "lock", "write", "lock"]);
    let b = names(&["write"]);
    assert_eq!(cfs_diff(&a, &b), names(&["default", "lock", "lock"]));
    assert_eq!(cfs_diff(&b, &a), Vec::<String>::new());
    assert_eq!(cfs_diff(&a, &Vec::new()), a);
}

#[test]
fn reconciles_on_disk_set_against_configured_set() {
    let existing = names(&["default", "lock"]);
    let needed = names(&["default", "write", "raft"]);
    match plan_open(true, &existing, &needed) {
        OpenPlan::Reconcile { drops, creates } => {
            assert_eq!(drops, names(&["lock"]), "lock is dropped");
            assert_eq!(creates, names(&["write", "raft"]), "write and raft are created");
        }
        other => panic!("expected a reconcile plan, got {:?}", plan_kind(&other)),
    }
}

#[test]
fn matching_on_disk_set_opens_without_create_or_drop() {
    let existing = names(&["default", "lock", "write"]);
    let needed = names(&["default", "lock", "write"]);
    assert!(matches!(plan_open(true, &existing, &needed), OpenPlan::OpenMatching));
}

#[test]
fn same_set_in_another_order_still_creates_and_drops_nothing() {
    let existing = names(&["default", "write", "lock"]);
    let needed = names(&["default", "lock", "write"]);
    match plan_open(true, &existing, &needed) {
        OpenPlan::Reconcile { drops, creates } => {
            assert!(drops.is_empty());
            assert!(creates.is_empty());
        }
        other => panic!("expected a reconcile plan, got {:?}", plan_kind(&other)),
    }
}

#[test]
fn default_family_is_never_dropped() {
    let existing = names(&["default", "lock"]);
    let needed = names(&["raft"]);
    match plan_open(true, &existing, &needed) {
        OpenPlan::Reconcile { drops, creates } => {
            assert_eq!(drops, names(&["lock"]), "default survives even when not configured");
            assert_eq!(creates, names(&["raft"]));
        }
        other => panic!("expected a reconcile plan, got {:?}", plan_kind(&other)),
    }
}

#[test]
fn missing_engine_is_created_with_default_then_the_rest() {
    let needed = names(&["default", "lock", "write", "raft"]);
    match plan_open(false, &Vec::new(), &needed) {
        OpenPlan::Create { creates } => {
            assert_eq!(creates, names(&["lock", "write", "raft"]));
        }
        other => panic!("expected a create plan, got {:?}", plan_kind(&other)),
    }
}

fn plan_kind(p: &OpenPlan) -> &'static str {
    match p {
        OpenPlan::Create { .. } => "create",
        OpenPlan::OpenMatching => "open-matching",
        OpenPlan::Reconcile { .. } => "reconcile",
    }
}
