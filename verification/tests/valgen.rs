use rocksdb_in_tikv::val::{RandValGen, RepeatValGen, ValGen, ValGenKind, value_type};
use rocksdb_in_tikv::config::ConfigError;

#[test]
fn test_const_valgen() {
    let mut vg = RepeatValGen::new(8);
    for _ in 0..8 {
        let val = vg.next().expect("");
        println!("{:?}", val);
    }
}

#[test]
fn test_rand_valgen() {
    let mut vg = RandValGen::new(8);
    for _ in 0..8 {
        let val = vg.next().expect("");
        println!("{:?}", val);
    }
}

#[test]
fn repeat_valgen_yields_same_value_forever() {
    let mut vg = RepeatValGen::new(6);
    let first = vg.next().expect("value");
    assert_eq!(first.len(), 6);
    for _ in 0..20 {
        assert_eq!(vg.next().expect("value"), first);
    }
}

#[test]
fn rand_valgen_keeps_length() {
    let mut vg = RandValGen::new(32);
    for _ in 0..5 {
        assert_eq!(vg.next().expect("value").len(), 32);
    }
}

#[test]
fn value_type_selects_by_name() {
    assert!(matches!(value_type("const", 8), Ok(ValGenKind::Repeat(_))));
    assert!(matches!(value_type("random", 8), Ok(ValGenKind::Rand(_))));
    // The selected generator carries the requested value length.
    let mut g = value_type("const", 9).unwrap();
    assert_eq!(g.next().expect("value").len(), 9);
    let mut g = value_type("random", 7).unwrap();
    assert_eq!(g.next().expect("value").len(), 7);
    match value_type("fixed", 8) {
        Err(ConfigError::InvalidEnum(name)) => assert_eq!(name, "fixed"),
        other => panic!("expected an invalid-enum error, got {:?}", other.map(|_| ())),
    }
}
