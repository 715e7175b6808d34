use rocksdb_in_tikv::bench::BenchConfig;
use rocksdb_in_tikv::config::{Config, ConfigEntry, ConfigError, ConfigValue};

#[test]
fn bench_defaults_match_the_documented_values() {
    let b = BenchConfig::from_config(&Config::empty()).unwrap();
    assert_eq!(b.warmup_cnt, 200000);
    assert_eq!(b.bench_cnt, 200000);
    assert_eq!(b.batch_size, 128);
    assert_eq!(b.region_num, 100);
    assert_eq!(b.operations, "d");
    assert_eq!(b.kgen_default, "random");
    assert_eq!(b.kgen_lock, "random");
    assert_eq!(b.kgen_raft, "random");
    assert_eq!(b.kgen_write, "random");
    assert_eq!(b.vgen_default, "random");
    assert_eq!(b.klen_default, 32);
    assert_eq!(b.klen_write, 32);
    assert_eq!(b.vlen_default, 128);
    assert_eq!(b.vlen_raft, 128);
}

#[test]
fn bench_options_follow_the_configuration() {
    let config = Config::new(vec![
        ConfigEntry {
            key: "bench.config.bench-count".to_string(),
            value: ConfigValue::Integer(5000),
        },
        ConfigEntry {
            key: "bench.config.batch-size".to_string(),
            value: ConfigValue::Integer(64),
        },
        ConfigEntry {
            key: "bench.config.operations".to_string(),
            value: ConfigValue::Text("dlrw".to_string()),
        },
        ConfigEntry {
            key: "defaultcf.data.key-gen".to_string(),
            value: ConfigValue::Text("increase".to_string()),
        },
        ConfigEntry {
            key: "defaultcf.data.key-len".to_string(),
            value: ConfigValue::Integer(16),
        },
    ]);
    let b = BenchConfig::from_config(&config).unwrap();
    assert_eq!(b.bench_cnt, 5000);
    assert_eq!(b.batch_size, 64);
    assert_eq!(b.operations, "dlrw");
    assert_eq!(b.kgen_default, "increase");
    assert_eq!(b.klen_default, 16);
    assert_eq!(b.warmup_cnt, 200000);
}

#[test]
fn a_bad_bench_key_fails_fast() {
    let config = Config::new(vec![ConfigEntry {
        key: "bench.config.batch-size".to_string(),
        value: ConfigValue::Boolean(true),
    }]);
    match BenchConfig::from_config(&config) {
        Err(ConfigError::TypeMismatch(k)) => assert_eq!(k, "bench.config.batch-size"),
        other => panic!("expected a type-mismatch error, got {:?}", other.map(|_| ())),
    }
}
