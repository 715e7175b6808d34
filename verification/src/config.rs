//! A plain model of the benchmark's hierarchical configuration.
//!
//! The configuration file is parsed outside the library and handed in as a
//! flat list of entries, each pairing a dotted key path (such as
//! `rocksdb.lockcf.block-size`) with a boolean, integer, or string value.
//! Lookups return the first entry with the requested key.  Integer lookups
//! also accept unit-suffixed strings, delegating to the unit parser.

use vstd::prelude::*;

use crate::units::{spec_parse_readable_int, parse_readable_int};

verus! {

/// One configuration value: a boolean, a raw integer, or a string.
pub enum ConfigValue {
    Boolean(bool),
    Integer(i64),
    Text(String),
}

/// One configuration entry: a dotted key path and its value.
pub struct ConfigEntry {
    pub key: String,
    pub value: ConfigValue,
}

/// The whole configuration: a flat list of entries keyed by dotted paths.
pub struct Config {
    pub entries: Vec<ConfigEntry>,
}

/// Why a configuration lookup failed.  Every variant carries the dotted
/// key path it is about.
#[derive(Debug, Clone, PartialEq, Eq)]
pub enum ConfigError {
    /// The key is absent and the caller supplied no default.
    MissingKey(String),
    /// The key is present but holds a value of the wrong kind.
    TypeMismatch(String),
    /// The key holds a string that is not a well-formed readable integer.
    MalformedValue(String),
    /// The key holds a string that is not one of the recognized names.
    InvalidEnum(String),
}

/// The mathematical shadow of `ConfigError`: the same variants over
/// character sequences, for use in contracts.
pub enum SpecConfigError {
    MissingKey(Seq<char>),
    TypeMismatch(Seq<char>),
    MalformedValue(Seq<char>),
    InvalidEnum(Seq<char>),
}

impl View for ConfigError {
    type V = SpecConfigError;

    open spec fn view(&self) -> SpecConfigError {
        match self {
            ConfigError::MissingKey(k) => SpecConfigError::MissingKey(k@),
            ConfigError::TypeMismatch(k) => SpecConfigError::TypeMismatch(k@),
            ConfigError::MalformedValue(k) => SpecConfigError::MalformedValue(k@),
            ConfigError::InvalidEnum(k) => SpecConfigError::InvalidEnum(k@),
        }
    }
}

impl ConfigError {
    /// The dotted key path this error is about.
    pub open spec fn spec_key(&self) -> Seq<char> {
        match self {
            ConfigError::MissingKey(k) => k@,
            ConfigError::TypeMismatch(k) => k@,
            ConfigError::MalformedValue(k) => k@,
            ConfigError::InvalidEnum(k) => k@,
        }
    }

    /// The dotted key path this error is about.
    pub fn key(&self) -> (k: &String)
        ensures
            k@ == self.spec_key(),
    {
        match self {
            ConfigError::MissingKey(k) => k,
            ConfigError::TypeMismatch(k) => k,
            ConfigError::MalformedValue(k) => k,
            ConfigError::InvalidEnum(k) => k,
        }
    }
}

/// The first entry whose key equals `name`, if any.
pub open spec fn spec_lookup(entries: Seq<ConfigEntry>, name: Seq<char>) -> Option<ConfigValue>
    decreases entries.len(),
{
    if entries.len() == 0 {
        None
    } else if entries[0].key@ == name {
        Some(entries[0].value)
    } else {
        spec_lookup(entries.drop_first(), name)
    }
}

/// What a boolean lookup yields: the present boolean, the default when
/// absent, or the error.
pub open spec fn spec_get_bool(entries: Seq<ConfigEntry>, name: Seq<char>, default: Option<bool>) -> Result<bool, SpecConfigError> {
    match spec_lookup(entries, name) {
        Some(ConfigValue::Boolean(b)) => Ok(b),
        Some(_) => Err(SpecConfigError::TypeMismatch(name)),
        None => match default {
            Some(d) => Ok(d),
            None => Err(SpecConfigError::MissingKey(name)),
        },
    }
}

/// What a string lookup yields: the present string, the default when
/// absent, or the error.
pub open spec fn spec_get_string(
    entries: Seq<ConfigEntry>,
    name: Seq<char>,
    default: Option<Seq<char>>,
) -> Result<Seq<char>, SpecConfigError> {
    match spec_lookup(entries, name) {
        Some(ConfigValue::Text(s)) => Ok(s@),
        Some(_) => Err(SpecConfigError::TypeMismatch(name)),
        None => match default {
            Some(d) => Ok(d),
            None => Err(SpecConfigError::MissingKey(name)),
        },
    }
}

/// What an integer lookup without a default yields: a raw integer as is,
/// a string through the unit parser, `None` when absent, or the error.
pub open spec fn spec_get_int_opt(entries: Seq<ConfigEntry>, name: Seq<char>) -> Result<
    Option<i64>,
    SpecConfigError,
> {
    match spec_lookup(entries, name) {
        Some(ConfigValue::Integer(i)) => Ok(Some(i)),
        Some(ConfigValue::Text(s)) => match spec_parse_readable_int(s@) {
            Ok(v) => Ok(Some(v)),
            Err(_) => Err(SpecConfigError::MalformedValue(name)),
        },
        Some(ConfigValue::Boolean(_)) => Err(SpecConfigError::TypeMismatch(name)),
        None => Ok(None),
    }
}

/// What an integer lookup yields: as `spec_get_int_opt`, with the default
/// filling in for an absent key.
pub open spec fn spec_get_int(entries: Seq<ConfigEntry>, name: Seq<char>, default: Option<i64>) -> Result<i64, SpecConfigError> {
    match spec_get_int_opt(entries, name) {
        Ok(Some(v)) => Ok(v),
        Ok(None) => match default {
            Some(d) => Ok(d),
            None => Err(SpecConfigError::MissingKey(name)),
        },
        Err(e) => Err(e),
    }
}

impl Config {
    /// Build a configuration from a list of entries.
    pub fn new(entries: Vec<ConfigEntry>) -> (c: Config)
        ensures
            c.entries == entries,
    {
        Config { entries }
    }

    /// An empty configuration: every lookup misses.
    pub fn empty() -> (c: Config)
        ensures
            c.entries@.len() == 0,
    {
        Config { entries: Vec::new() }
    }

    /// Find the first entry whose key equals `name`.
    pub fn lookup(&self, name: &String) -> (r: Option<&ConfigValue>)
        ensures
            match r {
                Some(v) => spec_lookup(self.entries@, name@) == Some(*v),
                None => spec_lookup(self.entries@, name@) is None,
            },
    {
        let ghost es = self.entries@;
        let n = self.entries.len();
        proof {
            assert(es.skip(0) =~= es);
        }
        let mut i: usize = 0;
        while i < n
            invariant
                0 <= i <= n,
                n == self.entries@.len(),
                es == self.entries@,
                spec_lookup(es, name@) == spec_lookup(es.skip(i as int), name@),
            decreases n - i,
        {
            let entry = &self.entries[i];
            proof {
                assert(es.skip(i as int)[0] == es[i as int]);
                assert(es.skip(i as int).drop_first() =~= es.skip(i as int + 1));
            }
            if entry.key.eq(name) {
                return Some(&entry.value);
            }
            i = i + 1;
        }
        proof {
            assert(es.skip(n as int) =~= Seq::<ConfigEntry>::empty());
        }
        None
    }
}

/// Look up a boolean key.  A present boolean wins; an absent key falls
/// back to the supplied default or fails with `MissingKey`; a present
/// value of another kind fails with `TypeMismatch`.
pub fn get_toml_boolean(config: &Config, name: &str, default: Option<bool>) -> (r: Result<
    bool,
    ConfigError,
>)
    ensures
        match spec_get_bool(config.entries@, name@, default) {
            Ok(b) => r == Ok::<bool, ConfigError>(b),
            Err(e) => r matches Err(err) && err@ == e,
        },
{
    let owned = name.to_owned();
    match config.lookup(&owned) {
        Some(ConfigValue::Boolean(b)) => Ok(*b),
        Some(_) => Err(ConfigError::TypeMismatch(owned)),
        None => match default {
            Some(d) => Ok(d),
            None => Err(ConfigError::MissingKey(owned)),
        },
    }
}

/// Look up a string key.  A present string wins; an absent key falls back
/// to the supplied default or fails with `MissingKey`; a present value of
/// another kind fails with `TypeMismatch`.
pub fn get_toml_string(config: &Config, name: &str, default: Option<String>) -> (r: Result<
    String,
    ConfigError,
>)
    ensures
        match spec_get_string(
            config.entries@,
            name@,
            match default {
                Some(d) => Some(d@),
                None => None,
            },
        ) {
            Ok(v0) => r matches Ok(v) && v@ == v0,
            Err(e) => r matches Err(err) && err@ == e,
        },
{
    let owned = name.to_owned();
    match config.lookup(&owned) {
        Some(ConfigValue::Text(s)) => Ok(s.clone()),
        Some(_) => Err(ConfigError::TypeMismatch(owned)),
        None => match default {
            Some(d) => Ok(d),
            None => Err(ConfigError::MissingKey(owned)),
        },
    }
}

/// Look up an integer key without a default.  A raw integer is returned
/// as is; a string is run through the unit parser; a boolean is a type
/// mismatch; an absent key is `Ok(None)`.
pub fn get_toml_int_opt(config: &Config, name: &str) -> (r: Result<Option<i64>, ConfigError>)
    ensures
        match spec_get_int_opt(config.entries@, name@) {
            Ok(v) => r == Ok::<Option<i64>, ConfigError>(v),
            Err(e) => r matches Err(err) && err@ == e,
        },
{
    let owned = name.to_owned();
    match config.lookup(&owned) {
        Some(ConfigValue::Integer(i)) => Ok(Some(*i)),
        Some(ConfigValue::Text(s)) => match parse_readable_int(s.as_str()) {
            Ok(v) => Ok(Some(v)),
            Err(_) => Err(ConfigError::MalformedValue(owned)),
        },
        Some(ConfigValue::Boolean(_)) => Err(ConfigError::TypeMismatch(owned)),
        None => Ok(None),
    }
}

/// Look up an integer key.  Works as `get_toml_int_opt`, except that an
/// absent key falls back to the supplied default or fails with
/// `MissingKey`.
pub fn get_toml_int(config: &Config, name: &str, default: Option<i64>) -> (r: Result<
    i64,
    ConfigError,
>)
    ensures
        match spec_get_int(config.entries@, name@, default) {
            Ok(v) => r == Ok::<i64, ConfigError>(v),
            Err(e) => r matches Err(err) && err@ == e,
        },
{
    match get_toml_int_opt(config, name) {
        Ok(Some(v)) => Ok(v),
        Ok(None) => match default {
            Some(d) => Ok(d),
            None => Err(ConfigError::MissingKey(name.to_owned())),
        },
        Err(e) => Err(e),
    }
}

} // verus!
