use rocksdb_in_tikv::cf::{Batch, CfRole, ColumnFamilies, Mutation, cfs_write};
use rocksdb_in_tikv::key::{IncreaseKeyGen, KeyGenKind, RepeatKeyGen};
use rocksdb_in_tikv::val::{RepeatValGen, ValGenKind};

fn increase_keys(len: usize, cnt: usize) -> KeyGenKind {
    KeyGenKind::Increase(IncreaseKeyGen::new(len, cnt))
}

fn repeat_keys(len: usize, cnt: usize) -> KeyGenKind {
    KeyGenKind::Repeat(RepeatKeyGen::new(len, cnt))
}

fn const_vals(len: usize) -> ValGenKind {
    ValGenKind::Repeat(RepeatValGen::new(len))
}

fn put_keys(batch: &Batch) -> Vec<Vec<u8>> {
    batch
        .ops
        .iter()
        .filter_map(|op| match op {
            Mutation::Put { key, .. } => Some(key.clone()),
            Mutation::Delete { .. } => None,
        })
        .collect()
}

fn delete_keys(batch: &Batch) -> Vec<Vec<u8>> {
    batch
        .ops
        .iter()
        .filter_map(|op| match op {
            Mutation::Delete { key } => Some(key.clone()),
            Mutation::Put { .. } => None,
        })
        .collect()
}

#[test]
fn lock_step_run_is_governed_by_the_shortest_generator() {
    let cfs = ColumnFamilies { default: true, lock: true, raft: false, write: false };
    let mut kd = increase_keys(2, 5);
    let mut vd = const_vals(4);
    let mut kl = increase_keys(2, 3);
    let mut vl = const_vals(4);
    let mut kr = repeat_keys(2, 0);
    let mut vr = const_vals(4);
    let mut kw = repeat_keys(2, 0);
    let mut vw = const_vals(4);
    let out = cfs_write(
        &cfs, &mut kd, &mut vd, &mut kl, &mut vl, &mut kr, &mut vr, &mut kw, &mut vw, 10,
    );

    // One round: a default put batch, a lock put batch, a lock delete batch.
    assert_eq!(out.len(), 3);
    assert_eq!(out[0].cf, CfRole::Default);
    assert_eq!(out[1].cf, CfRole::Lock);
    assert_eq!(out[2].cf, CfRole::Lock);

    // Exactly three paired items processed for each active family.
    assert_eq!(put_keys(&out[0]).len(), 3);
    let lock_puts = put_keys(&out[1]);
    assert_eq!(lock_puts.len(), 3);
    assert!(delete_keys(&out[1]).is_empty());

    // The lock family sees three puts followed by three deletes of the
    // same keys, in the same order.
    let lock_dels = delete_keys(&out[2]);
    assert!(put_keys(&out[2]).is_empty());
    assert_eq!(lock_dels, lock_puts);
    assert_eq!(lock_puts, vec![vec![0u8, 1], vec![0u8, 2], vec![0u8, 3]]);
}

#[test]
fn final_partial_batch_is_still_submitted() {
    let cfs = ColumnFamilies { default: true, lock: true, raft: false, write: false };
    let mut kd = increase_keys(2, 5);
    let mut vd = const_vals(4);
    let mut kl = increase_keys(2, 3);
    let mut vl = const_vals(4);
    let mut kr = repeat_keys(2, 0);
    let mut vr = const_vals(4);
    let mut kw = repeat_keys(2, 0);
    let mut vw = const_vals(4);
    let out = cfs_write(
        &cfs, &mut kd, &mut vd, &mut kl, &mut vl, &mut kr, &mut vr, &mut kw, &mut vw, 2,
    );

    // Two rounds: a full one of two items, then a partial one of one.
    assert_eq!(out.len(), 6);
    let roles: Vec<CfRole> = out.iter().map(|b| b.cf).collect();
    assert_eq!(
        roles,
        vec![
            CfRole::Default,
            CfRole::Lock,
            CfRole::Lock,
            CfRole::Default,
            CfRole::Lock,
            CfRole::Lock,
        ]
    );
    assert_eq!(out[0].ops.len(), 2);
    assert_eq!(out[3].ops.len(), 1);

    // Over the whole run, deletes still mirror the lock puts.
    let all_lock_puts: Vec<Vec<u8>> =
        out.iter().filter(|b| b.cf == CfRole::Lock).flat_map(|b| put_keys(b)).collect();
    let all_lock_dels: Vec<Vec<u8>> =
        out.iter().filter(|b| b.cf == CfRole::Lock).flat_map(|b| delete_keys(b)).collect();
    assert_eq!(all_lock_puts.len(), 3);
    assert_eq!(all_lock_dels, all_lock_puts);

    // The shorter generator governs consumption: the default generator
    // lost one extra key to the failing pull, the lock one is drained.
    match kd {
        KeyGenKind::Increase(g) => assert_eq!(g.cnt, 1),
        _ => unreachable!(),
    }
    match kl {
        KeyGenKind::Increase(g) => assert_eq!(g.cnt, 0),
        _ => unreachable!(),
    }
}

#[test]
fn single_family_run_writes_everything() {
    let cfs = ColumnFamilies { default: true, lock: false, raft: false, write: false };
    let mut kd = increase_keys(2, 5);
    let mut vd = const_vals(4);
    let mut kl = repeat_keys(2, 0);
    let mut vl = const_vals(4);
    let mut kr = repeat_keys(2, 0);
    let mut vr = const_vals(4);
    let mut kw = repeat_keys(2, 0);
    let mut vw = const_vals(4);
    let out = cfs_write(
        &cfs, &mut kd, &mut vd, &mut kl, &mut vl, &mut kr, &mut vr, &mut kw, &mut vw, 2,
    );
    let total: usize = out.iter().map(|b| b.ops.len()).sum();
    assert_eq!(total, 5);
    assert!(out.iter().all(|b| b.cf == CfRole::Default));
    assert!(out.iter().all(|b| !b.ops.is_empty()));
    // The untouched generators keep their state.
    match kl {
        KeyGenKind::Repeat(g) => assert_eq!(g.cnt, 0),
        _ => unreachable!(),
    }
}

#[test]
fn operation_roles_select_families() {
    let all = ColumnFamilies::from_operations("dlrw");
    assert!(all.default && all.lock && all.raft && all.write);
    let only_default = ColumnFamilies::from_operations("d");
    assert!(only_default.default);
    assert!(!only_default.lock && !only_default.raft && !only_default.write);
    let mixed = ColumnFamilies::from_operations("wd");
    assert!(mixed.default && mixed.write);
    assert!(!mixed.lock && !mixed.raft);
    let none = ColumnFamilies::from_operations("x");
    assert!(!none.default && !none.lock && !none.raft && !none.write);
}
