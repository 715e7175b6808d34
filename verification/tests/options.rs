use rocksdb_in_tikv::config::{Config, ConfigEntry, ConfigError, ConfigValue};
use rocksdb_in_tikv::options::{
    CfOptValues, CompressionType, PrefixExtractor, RecoveryMode, adjust_block_cache_size,
    align_to_mb, get_rocksdb_db_option, get_rocksdb_default_cf_option, get_rocksdb_lock_cf_option,
    get_rocksdb_raftlog_cf_option, get_rocksdb_write_cf_option,
    parse_rocksdb_per_level_compression, parse_rocksdb_wal_recovery_mode,
};

#[test]
fn default_value_table_matches_the_documented_defaults() {
    let v = CfOptValues::default();
    assert_eq!(v.block_size, 64 * 1024);
    assert_eq!(v.block_cache_size, 256 * 1024 * 1024);
    assert!(v.cache_index_and_filter_blocks);
    assert!(!v.use_bloom_filter);
    assert!(v.whole_key_filtering);
    assert_eq!(v.bloom_bits_per_key, 10);
    assert!(!v.block_based_filter);
    assert_eq!(v.compression_per_level, "no:no:lz4:lz4:lz4:lz4:lz4");
    assert_eq!(v.write_buffer_size, 128 * 1024 * 1024);
    assert_eq!(v.max_write_buffer_number, 5);
    assert_eq!(v.min_write_buffer_number_to_merge, 1);
    assert_eq!(v.max_bytes_for_level_base, 512 * 1024 * 1024);
    assert_eq!(v.target_file_size_base, 32 * 1024 * 1024);
    assert_eq!(v.level_zero_file_num_compaction_trigger, 4);
    assert_eq!(v.level_zero_slowdown_writes_trigger, 20);
    assert_eq!(v.level_zero_stop_writes_trigger, 36);
    assert_eq!(v.compaction_priority, 0);
}

#[test]
fn parses_per_level_compression_lists() {
    let parsed = parse_rocksdb_per_level_compression("no:no:lz4:lz4:lz4:lz4:lz4").unwrap();
    assert_eq!(
        parsed,
        vec![
            CompressionType::No,
            CompressionType::No,
            CompressionType::Lz4,
            CompressionType::Lz4,
            CompressionType::Lz4,
            CompressionType::Lz4,
            CompressionType::Lz4,
        ]
    );
    let mixed = parse_rocksdb_per_level_compression("SNAPPY:zlib:bzip2:LZ4HC:zstd").unwrap();
    assert_eq!(
        mixed,
        vec![
            CompressionType::Snappy,
            CompressionType::Zlib,
            CompressionType::Bz2,
            CompressionType::Lz4hc,
            CompressionType::Zstd,
        ]
    );
    match parse_rocksdb_per_level_compression("no:gzip:lz4") {
        Err(ConfigError::InvalidEnum(seg)) => assert_eq!(seg, "gzip"),
        other => panic!("expected an invalid-enum error, got {:?}", other),
    }
}

#[test]
fn decodes_wal_recovery_modes() {
    assert_eq!(
        parse_rocksdb_wal_recovery_mode(0),
        Some(RecoveryMode::TolerateCorruptedTailRecords)
    );
    assert_eq!(parse_rocksdb_wal_recovery_mode(1), Some(RecoveryMode::AbsoluteConsistency));
    assert_eq!(parse_rocksdb_wal_recovery_mode(2), Some(RecoveryMode::PointInTime));
    assert_eq!(parse_rocksdb_wal_recovery_mode(3), Some(RecoveryMode::SkipAnyCorruptedRecords));
    assert_eq!(parse_rocksdb_wal_recovery_mode(4), None);
    assert_eq!(parse_rocksdb_wal_recovery_mode(-1), None);
}

#[test]
fn translates_default_cf_with_whole_key_bloom() {
    let t = get_rocksdb_default_cf_option(&Config::empty()).unwrap();
    assert_eq!(t.block_size, 64 * 1024);
    let bloom = t.bloom.expect("the default family uses a bloom filter");
    assert_eq!(bloom.bits_per_key, 10);
    assert!(!bloom.block_based);
    assert!(bloom.whole_key_filtering);
    assert_eq!(t.compression_per_level[0], CompressionType::No);
    assert_eq!(t.compression_per_level[2], CompressionType::Lz4);
    assert_eq!(t.prefix_extractor, PrefixExtractor::Unset);
    assert!(!t.memtable_prefix_bloom);
}

#[test]
fn translates_write_cf_with_suffix_extractor() {
    let t = get_rocksdb_write_cf_option(&Config::empty()).unwrap();
    let bloom = t.bloom.expect("the write family uses a bloom filter");
    assert!(!bloom.whole_key_filtering, "the write family's filter skips the timestamp suffix");
    assert_eq!(t.prefix_extractor, PrefixExtractor::FixedSuffix(8));
    assert!(t.memtable_prefix_bloom);
}

#[test]
fn translates_raft_cf_with_region_prefix_hint() {
    let t = get_rocksdb_raftlog_cf_option(&Config::empty()).unwrap();
    assert!(t.bloom.is_none());
    assert_eq!(t.block_cache_size, 256 * 1024 * 1024);
    assert_eq!(t.insert_hint_prefix_extractor, PrefixExtractor::FixedPrefix(11));
    assert_eq!(t.prefix_extractor, PrefixExtractor::Unset);
}

#[test]
fn translates_lock_cf_with_small_uncompressed_blocks() {
    let t = get_rocksdb_lock_cf_option(&Config::empty()).unwrap();
    assert_eq!(t.block_size, 16 * 1024);
    assert_eq!(t.block_cache_size, 256 * 1024 * 1024);
    assert_eq!(t.compression_per_level, vec![CompressionType::No; 7]);
    assert_eq!(t.level_zero_file_num_compaction_trigger, 1);
    assert_eq!(t.max_bytes_for_level_base, 128 * 1024 * 1024);
    let bloom = t.bloom.expect("the lock family uses a bloom filter");
    assert!(bloom.whole_key_filtering);
    assert_eq!(t.prefix_extractor, PrefixExtractor::Noop);
    assert!(t.memtable_prefix_bloom);
}

#[test]
fn configuration_overrides_the_cf_default_table() {
    let config = Config::new(vec![
        ConfigEntry {
            key: "rocksdb.defaultcf.block-size".to_string(),
            value: ConfigValue::Text("16kb".to_string()),
        },
        ConfigEntry {
            key: "rocksdb.defaultcf.max-write-buffer-number".to_string(),
            value: ConfigValue::Integer(9),
        },
    ]);
    let t = get_rocksdb_default_cf_option(&config).unwrap();
    assert_eq!(t.block_size, 16 * 1024);
    assert_eq!(t.max_write_buffer_number, 9);
    assert_eq!(t.write_buffer_size, 128 * 1024 * 1024);
}

#[test]
fn translates_engine_options_with_documented_defaults() {
    let t = get_rocksdb_db_option(&Config::empty()).unwrap();
    assert_eq!(t.wal_recovery_mode, RecoveryMode::PointInTime);
    assert_eq!(t.wal_dir, "");
    assert_eq!(t.wal_ttl_seconds, 0);
    assert_eq!(t.wal_size_limit_mb, 0);
    assert_eq!(t.max_total_wal_size, 4 * 1024 * 1024 * 1024);
    assert_eq!(t.max_background_compactions, 6);
    assert_eq!(t.max_background_flushes, 2);
    assert_eq!(t.base_background_compactions, 1);
    assert_eq!(t.max_manifest_file_size, 20 * 1024 * 1024);
    assert!(t.create_if_missing);
    assert_eq!(t.max_open_files, 40960);
    assert!(t.enable_statistics);
    assert_eq!(t.stats_dump_period_sec, Some(600));
    assert_eq!(t.rate_bytes_per_sec, None);
    assert_eq!(t.max_sub_compactions, 1);
    assert_eq!(t.writable_file_max_buffer_size, 1024 * 1024);
    assert!(!t.use_direct_io_for_flush_and_compaction);
}

#[test]
fn engine_options_follow_the_configuration() {
    let config = Config::new(vec![
        ConfigEntry {
            key: "rocksdb.wal-recovery-mode".to_string(),
            value: ConfigValue::Integer(1),
        },
        ConfigEntry {
            key: "rocksdb.wal-size-limit".to_string(),
            value: ConfigValue::Text("3mb".to_string()),
        },
        ConfigEntry {
            key: "rocksdb.enable-statistics".to_string(),
            value: ConfigValue::Boolean(false),
        },
        ConfigEntry {
            key: "rocksdb.rate-bytes-per-sec".to_string(),
            value: ConfigValue::Integer(77),
        },
        ConfigEntry {
            key: "rocksdb.info-log-roll-time".to_string(),
            value: ConfigValue::Integer(5500),
        },
    ]);
    let t = get_rocksdb_db_option(&config).unwrap();
    assert_eq!(t.wal_recovery_mode, RecoveryMode::AbsoluteConsistency);
    assert_eq!(t.wal_size_limit_mb, 3);
    assert!(!t.enable_statistics);
    assert_eq!(t.stats_dump_period_sec, None);
    assert_eq!(t.rate_bytes_per_sec, Some(77));
    assert_eq!(t.info_log_roll_time_secs, 5);
}

#[test]
fn invalid_recovery_mode_is_an_invalid_enum() {
    let config = Config::new(vec![ConfigEntry {
        key: "rocksdb.wal-recovery-mode".to_string(),
        value: ConfigValue::Integer(9),
    }]);
    match get_rocksdb_db_option(&config) {
        Err(ConfigError::InvalidEnum(k)) => assert_eq!(k, "rocksdb.wal-recovery-mode"),
        other => panic!("expected an invalid-enum error, got {:?}", other.map(|_| ())),
    }
}

#[test]
fn alignment_and_cache_clamping() {
    assert_eq!(align_to_mb(0), 0);
    assert_eq!(align_to_mb(1024 * 1024 + 7), 1024 * 1024);
    assert_eq!(align_to_mb(3 * 1024 * 1024 - 1), 2 * 1024 * 1024);
    assert_eq!(adjust_block_cache_size(10, 100, 1000), 100);
    assert_eq!(adjust_block_cache_size(5000, 100, 1000), 1000);
    assert_eq!(adjust_block_cache_size(500, 100, 1000), 500);
}
