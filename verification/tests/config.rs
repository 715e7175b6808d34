use rocksdb_in_tikv::config::{
    Config, ConfigEntry, ConfigError, ConfigValue, get_toml_boolean, get_toml_int,
    get_toml_int_opt, get_toml_string,
};

fn sample() -> Config {
    Config::new(vec![
        ConfigEntry {
            key: "rocksdb.max-open-files".to_string(),
            value: ConfigValue::Integer(1024),
        },
        ConfigEntry {
            key: "rocksdb.wal-dir".to_string(),
            value: ConfigValue::Text("/tmp/wal".to_string()),
        },
        ConfigEntry {
            key: "rocksdb.create-if-missing".to_string(),
            value: ConfigValue::Boolean(false),
        },
        ConfigEntry {
            key: "rocksdb.defaultcf.block-size".to_string(),
            value: ConfigValue::Text("16kb".to_string()),
        },
        ConfigEntry {
            key: "rocksdb.defaultcf.bad-size".to_string(),
            value: ConfigValue::Text("sixteen".to_string()),
        },
    ])
}

#[test]
fn absent_key_with_default_returns_the_default() {
    let c = sample();
    assert_eq!(get_toml_int(&c, "rocksdb.absent", Some(42)), Ok(42));
    assert_eq!(get_toml_boolean(&c, "rocksdb.absent", Some(true)), Ok(true));
    assert_eq!(
        get_toml_string(&c, "rocksdb.absent", Some("fallback".to_string())),
        Ok("fallback".to_string())
    );
    assert_eq!(get_toml_int_opt(&c, "rocksdb.absent"), Ok(None));
}

#[test]
fn absent_key_without_default_is_missing_key() {
    let c = sample();
    match get_toml_int(&c, "rocksdb.absent", None) {
        Err(ConfigError::MissingKey(k)) => assert_eq!(k, "rocksdb.absent"),
        other => panic!("expected a missing-key error, got {:?}", other),
    }
    match get_toml_boolean(&c, "rocksdb.absent", None) {
        Err(ConfigError::MissingKey(k)) => assert_eq!(k, "rocksdb.absent"),
        other => panic!("expected a missing-key error, got {:?}", other),
    }
    match get_toml_string(&c, "rocksdb.absent", None) {
        Err(ConfigError::MissingKey(k)) => assert_eq!(k, "rocksdb.absent"),
        other => panic!("expected a missing-key error, got {:?}", other),
    }
}

#[test]
fn present_key_of_wrong_kind_is_type_mismatch() {
    let c = sample();
    match get_toml_boolean(&c, "rocksdb.max-open-files", Some(true)) {
        Err(ConfigError::TypeMismatch(k)) => assert_eq!(k, "rocksdb.max-open-files"),
        other => panic!("expected a type-mismatch error, got {:?}", other),
    }
    match get_toml_string(&c, "rocksdb.max-open-files", None) {
        Err(ConfigError::TypeMismatch(k)) => assert_eq!(k, "rocksdb.max-open-files"),
        other => panic!("expected a type-mismatch error, got {:?}", other),
    }
    match get_toml_int(&c, "rocksdb.create-if-missing", Some(0)) {
        Err(ConfigError::TypeMismatch(k)) => assert_eq!(k, "rocksdb.create-if-missing"),
        other => panic!("expected a type-mismatch error, got {:?}", other),
    }
}

#[test]
fn present_values_win_over_defaults() {
    let c = sample();
    assert_eq!(get_toml_int(&c, "rocksdb.max-open-files", Some(7)), Ok(1024));
    assert_eq!(get_toml_boolean(&c, "rocksdb.create-if-missing", Some(true)), Ok(false));
    assert_eq!(
        get_toml_string(&c, "rocksdb.wal-dir", Some(String::new())),
        Ok("/tmp/wal".to_string())
    );
}

#[test]
fn integer_keys_accept_unit_suffixed_strings() {
    let c = sample();
    assert_eq!(get_toml_int(&c, "rocksdb.defaultcf.block-size", Some(0)), Ok(16 * 1024));
    assert_eq!(get_toml_int_opt(&c, "rocksdb.defaultcf.block-size"), Ok(Some(16 * 1024)));
    match get_toml_int(&c, "rocksdb.defaultcf.bad-size", Some(0)) {
        Err(ConfigError::MalformedValue(k)) => assert_eq!(k, "rocksdb.defaultcf.bad-size"),
        other => panic!("expected a malformed-value error, got {:?}", other),
    }
}

#[test]
fn lookup_returns_first_matching_entry() {
    let c = Config::new(vec![
        ConfigEntry { key: "k".to_string(), value: ConfigValue::Integer(1) },
        ConfigEntry { key: "k".to_string(), value: ConfigValue::Integer(2) },
    ]);
    assert_eq!(get_toml_int(&c, "k", None), Ok(1));
}
