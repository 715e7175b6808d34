use rocksdb_in_tikv::transform::{
    FixedPrefixSliceTransform, FixedSuffixSliceTransform, NoopSliceTransform,
};
use rocksdb_in_tikv::{gen_rand_str, region_raft_prefix_len};

#[test]
fn suffix_transform_trims_the_timestamp() {
    let t = FixedSuffixSliceTransform::new(8);
    let key = [1u8, 2, 3, 0, 0, 0, 0, 0, 0, 0, 9, 9];
    assert_eq!(t.transform(&key), &key[..4]);
    assert!(t.in_domain(&key));
    assert!(!t.in_domain(&key[..7]));
    assert!(t.in_range(&key));
}

#[test]
fn prefix_transform_keeps_the_region_log_prefix() {
    let t = FixedPrefixSliceTransform::new(region_raft_prefix_len());
    let key: Vec<u8> = (0u8..17).collect();
    assert_eq!(t.transform(&key), &key[..11]);
    assert!(t.in_domain(&key));
    assert!(!t.in_domain(&key[..10]));
    assert!(t.in_range(&key));
}

#[test]
fn noop_transform_keeps_the_whole_key() {
    let t = NoopSliceTransform;
    let key = [5u8, 6, 7];
    assert_eq!(t.transform(&key), &key);
    assert!(t.in_domain(&key));
    assert!(t.in_range(&key));
}

#[test]
fn raft_prefix_length_counts_marker_region_and_suffix() {
    assert_eq!(region_raft_prefix_len(), 2 + 8 + 1);
}

#[test]
fn random_buffers_have_the_requested_length() {
    assert_eq!(gen_rand_str(0).len(), 0);
    assert_eq!(gen_rand_str(33).len(), 33);
}
