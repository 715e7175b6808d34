use rocksdb_in_tikv::key::{
    IncreaseKeyGen, KeyGen, KeyGenKind, RandomKeyGen, RepeatKeyGen, SeqKeyGen, key_type,
};
use rocksdb_in_tikv::config::ConfigError;

#[test]
fn test_repeate_keygen() {
    let mut kg = RepeatKeyGen::new(8, 8);
    while let Some(key) = kg.next() {
        println!("{:?}", key);
    }
}

#[test]
fn test_increase_keygen() {
    let mut kg = IncreaseKeyGen::new(8, 8);
    while let Some(key) = kg.next() {
        println!("{:?}", key);
    }
}

#[test]
fn test_random_keygen() {
    let mut kg = RandomKeyGen::new(8, 8);
    while let Some(key) = kg.next() {
        println!("{:?}", key);
    }
}

#[test]
fn test_raft_keygen() {
    let mut kg = SeqKeyGen::new(17, 20, 10);
    while let Some(key) = kg.next() {
        println!("{:?}", key);
    }
}

#[test]
fn repeat_keygen_yields_fixed_key_cnt_times() {
    let mut kg = RepeatKeyGen::new(4, 3);
    let first = kg.next().expect("first key");
    assert_eq!(first.len(), 4);
    let second = kg.next().expect("second key");
    assert_eq!(second, first);
    let third = kg.next().expect("third key");
    assert_eq!(third, first);
    assert!(kg.next().is_none());
    assert!(kg.next().is_none());
}

#[test]
fn increase_keygen_counts_up_big_endian() {
    let mut kg = IncreaseKeyGen::new(2, 3);
    assert_eq!(kg.next(), Some(vec![0u8, 1]));
    assert_eq!(kg.next(), Some(vec![0u8, 2]));
    assert_eq!(kg.next(), Some(vec![0u8, 3]));
    assert_eq!(kg.next(), None);
}

#[test]
fn increase_keygen_propagates_carry() {
    let mut kg = IncreaseKeyGen::new(2, 300);
    let mut last = Vec::new();
    for _ in 0..255 {
        last = kg.next().expect("key");
    }
    assert_eq!(last, vec![0u8, 255]);
    assert_eq!(kg.next(), Some(vec![1u8, 0]));
}

#[test]
fn increase_keygen_with_zero_count_never_yields() {
    let mut kg = IncreaseKeyGen::new(2, 0);
    assert!(kg.next().is_none());
    assert!(kg.next().is_none());
}

#[test]
fn random_keygen_respects_count_and_length() {
    let mut kg = RandomKeyGen::new(16, 2);
    let first = kg.next().expect("first key");
    assert_eq!(first.len(), 16);
    let second = kg.next().expect("second key");
    assert_eq!(second.len(), 16);
    assert!(kg.next().is_none());
}

#[test]
fn raft_keygen_cycles_regions_round_robin() {
    let mut kg = SeqKeyGen::new(17, 20, 10);
    for i in 0..20u64 {
        let key = kg.next().expect("key");
        let mut expected = (i % 10).to_be_bytes().to_vec();
        expected.push(b':');
        expected.extend_from_slice(&(i / 10).to_be_bytes());
        assert_eq!(key, expected, "key {} carries (region, sequence)", i);
    }
    assert!(kg.next().is_none());
}

#[test]
fn key_type_selects_by_name() {
    assert!(matches!(key_type("repeat", 8, 1, 1), Ok(KeyGenKind::Repeat(_))));
    assert!(matches!(key_type("increase", 8, 1, 1), Ok(KeyGenKind::Increase(_))));
    assert!(matches!(key_type("random", 8, 1, 1), Ok(KeyGenKind::Random(_))));
    assert!(matches!(key_type("raft", 8, 1, 10), Ok(KeyGenKind::Raft(_))));
    // The selected generator carries the requested buffer length.
    let mut g = key_type("repeat", 6, 2, 1).unwrap();
    assert_eq!(g.next().expect("key").len(), 6);
    let mut g = key_type("increase", 3, 2, 1).unwrap();
    assert_eq!(g.next().expect("key"), vec![0u8, 0, 1]);
    let mut g = key_type("random", 5, 2, 1).unwrap();
    assert_eq!(g.next().expect("key").len(), 5);
    match key_type("zipf", 8, 1, 1) {
        Err(ConfigError::InvalidEnum(name)) => assert_eq!(name, "zipf"),
        other => panic!("expected an invalid-enum error, got {:?}", other.map(|_| ())),
    }
}
