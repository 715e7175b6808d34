//! The benchmark-driver options: counts, batch size, region count,
//! operation roles, and the generator selection for each column family.
//!
//! All of it is read from the configuration with the documented
//! defaults, in one pass that fails on the first bad key.

use vstd::prelude::*;

use crate::config::{Config, ConfigEntry, ConfigError, SpecConfigError, spec_get_int,
    spec_get_string, get_toml_int, get_toml_string};

verus! {

/// The benchmark-driver options, as plain data.
#[derive(Debug, Clone)]
pub struct BenchConfig {
    pub warmup_cnt: usize,
    pub bench_cnt: usize,
    pub batch_size: usize,
    pub region_num: usize,
    pub operations: String,
    pub kgen_default: String,
    pub kgen_lock: String,
    pub kgen_raft: String,
    pub kgen_write: String,
    pub vgen_default: String,
    pub vgen_lock: String,
    pub vgen_raft: String,
    pub vgen_write: String,
    pub klen_default: usize,
    pub klen_lock: usize,
    pub klen_raft: usize,
    pub klen_write: usize,
    pub vlen_default: usize,
    pub vlen_lock: usize,
    pub vlen_raft: usize,
    pub vlen_write: usize,
}

/// The mathematical shadow of `BenchConfig`.
pub struct SpecBenchConfig {
    pub warmup_cnt: usize,
    pub bench_cnt: usize,
    pub batch_size: usize,
    pub region_num: usize,
    pub operations: Seq<char>,
    pub kgen_default: Seq<char>,
    pub kgen_lock: Seq<char>,
    pub kgen_raft: Seq<char>,
    pub kgen_write: Seq<char>,
    pub vgen_default: Seq<char>,
    pub vgen_lock: Seq<char>,
    pub vgen_raft: Seq<char>,
    pub vgen_write: Seq<char>,
    pub klen_default: usize,
    pub klen_lock: usize,
    pub klen_raft: usize,
    pub klen_write: usize,
    pub vlen_default: usize,
    pub vlen_lock: usize,
    pub vlen_raft: usize,
    pub vlen_write: usize,
}

impl View for BenchConfig {
    type V = SpecBenchConfig;

    open spec fn view(&self) -> SpecBenchConfig {
        SpecBenchConfig {
            warmup_cnt: self.warmup_cnt,
            bench_cnt: self.bench_cnt,
            batch_size: self.batch_size,
            region_num: self.region_num,
            operations: self.operations@,
            kgen_default: self.kgen_default@,
            kgen_lock: self.kgen_lock@,
            kgen_raft: self.kgen_raft@,
            kgen_write: self.kgen_write@,
            vgen_default: self.vgen_default@,
            vgen_lock: self.vgen_lock@,
            vgen_raft: self.vgen_raft@,
            vgen_write: self.vgen_write@,
            klen_default: self.klen_default,
            klen_lock: self.klen_lock,
            klen_raft: self.klen_raft,
            klen_write: self.klen_write,
            vlen_default: self.vlen_default,
            vlen_lock: self.vlen_lock,
            vlen_raft: self.vlen_raft,
            vlen_write: self.vlen_write,
        }
    }
}

/// What reading the benchmark-driver options yields: each option from
/// its key with the documented default, counts truncated to `usize` as
/// the driver consumes them, and the first failing lookup's error, in
/// the order the keys are read.
pub open spec fn spec_bench_config(es: Seq<ConfigEntry>) -> Result<
    SpecBenchConfig,
    SpecConfigError,
> {
    let r_warmup_cnt = spec_get_int(es, "bench.config.warmup-count"@, Some(200000));
    let r_bench_cnt = spec_get_int(es, "bench.config.bench-count"@, Some(200000));
    let r_batch_size = spec_get_int(es, "bench.config.batch-size"@, Some(128));
    let r_region_num = spec_get_int(es, "bench.config.region-num"@, Some(100));
    let r_operations = spec_get_string(es, "bench.config.operations"@, Some("d"@));
    let r_kgen_default = spec_get_string(es, "defaultcf.data.key-gen"@, Some("random"@));
    let r_kgen_lock = spec_get_string(es, "lockcf.data.key-gen"@, Some("random"@));
    let r_kgen_raft = spec_get_string(es, "raftcf.data.key-gen"@, Some("random"@));
    let r_kgen_write = spec_get_string(es, "writecf.data.key-gen"@, Some("random"@));
    let r_vgen_default = spec_get_string(es, "defaultcf.data.value-gen"@, Some("random"@));
    let r_vgen_lock = spec_get_string(es, "lockcf.data.value-gen"@, Some("random"@));
    let r_vgen_raft = spec_get_string(es, "raftcf.data.value-gen"@, Some("random"@));
    let r_vgen_write = spec_get_string(es, "writecf.data.value-gen"@, Some("random"@));
    let r_klen_default = spec_get_int(es, "defaultcf.data.key-len"@, Some(32));
    let r_klen_lock = spec_get_int(es, "lockcf.data.key-len"@, Some(32));
    let r_klen_raft = spec_get_int(es, "raftcf.data.key-len"@, Some(32));
    let r_klen_write = spec_get_int(es, "writecf.data.key-len"@, Some(32));
    let r_vlen_default = spec_get_int(es, "defaultcf.data.value-len"@, Some(128));
    let r_vlen_lock = spec_get_int(es, "lockcf.data.value-len"@, Some(128));
    let r_vlen_raft = spec_get_int(es, "raftcf.data.value-len"@, Some(128));
    let r_vlen_write = spec_get_int(es, "writecf.data.value-len"@, Some(128));
    if r_warmup_cnt is Err {
        Err(r_warmup_cnt->Err_0)
    } else if r_bench_cnt is Err {
        Err(r_bench_cnt->Err_0)
    } else if r_batch_size is Err {
        Err(r_batch_size->Err_0)
    } else if r_region_num is Err {
        Err(r_region_num->Err_0)
    } else if r_operations is Err {
        Err(r_operations->Err_0)
    } else if r_kgen_default is Err {
        Err(r_kgen_default->Err_0)
    } else if r_kgen_lock is Err {
        Err(r_kgen_lock->Err_0)
    } else if r_kgen_raft is Err {
        Err(r_kgen_raft->Err_0)
    } else if r_kgen_write is Err {
        Err(r_kgen_write->Err_0)
    } else if r_vgen_default is Err {
        Err(r_vgen_default->Err_0)
    } else if r_vgen_lock is Err {
        Err(r_vgen_lock->Err_0)
    } else if r_vgen_raft is Err {
        Err(r_vgen_raft->Err_0)
    } else if r_vgen_write is Err {
        Err(r_vgen_write->Err_0)
    } else if r_klen_default is Err {
        Err(r_klen_default->Err_0)
    } else if r_klen_lock is Err {
        Err(r_klen_lock->Err_0)
    } else if r_klen_raft is Err {
        Err(r_klen_raft->Err_0)
    } else if r_klen_write is Err {
        Err(r_klen_write->Err_0)
    } else if r_vlen_default is Err {
        Err(r_vlen_default->Err_0)
    } else if r_vlen_lock is Err {
        Err(r_vlen_lock->Err_0)
    } else if r_vlen_raft is Err {
        Err(r_vlen_raft->Err_0)
    } else if r_vlen_write is Err {
        Err(r_vlen_write->Err_0)
    } else {
        Ok(
            SpecBenchConfig {
                warmup_cnt: (r_warmup_cnt->Ok_0) as usize,
                bench_cnt: (r_bench_cnt->Ok_0) as usize,
                batch_size: (r_batch_size->Ok_0) as usize,
                region_num: (r_region_num->Ok_0) as usize,
                operations: r_operations->Ok_0,
                kgen_default: r_kgen_default->Ok_0,
                kgen_lock: r_kgen_lock->Ok_0,
                kgen_raft: r_kgen_raft->Ok_0,
                kgen_write: r_kgen_write->Ok_0,
                vgen_default: r_vgen_default->Ok_0,
                vgen_lock: r_vgen_lock->Ok_0,
                vgen_raft: r_vgen_raft->Ok_0,
                vgen_write: r_vgen_write->Ok_0,
                klen_default: (r_klen_default->Ok_0) as usize,
                klen_lock: (r_klen_lock->Ok_0) as usize,
                klen_raft: (r_klen_raft->Ok_0) as usize,
                klen_write: (r_klen_write->Ok_0) as usize,
                vlen_default: (r_vlen_default->Ok_0) as usize,
                vlen_lock: (r_vlen_lock->Ok_0) as usize,
                vlen_raft: (r_vlen_raft->Ok_0) as usize,
                vlen_write: (r_vlen_write->Ok_0) as usize,
            },
        )
    }
}

impl BenchConfig {
    /// Read the benchmark-driver options from the configuration.
    pub fn from_config(config: &Config) -> (r: Result<BenchConfig, ConfigError>)
        ensures
            match spec_bench_config(config.entries@) {
                Ok(t) => r matches Ok(v) && v@ == t,
                Err(e) => r matches Err(err) && err@ == e,
            },
    {
        let warmup_cnt = match get_toml_int(config, "bench.config.warmup-count", Some(200000)) {
            Ok(v) => #[verifier::truncate] (v as usize),
            Err(e) => return Err(e),
        };
        let bench_cnt = match get_toml_int(config, "bench.config.bench-count", Some(200000)) {
            Ok(v) => #[verifier::truncate] (v as usize),
            Err(e) => return Err(e),
        };
        let batch_size = match get_toml_int(config, "bench.config.batch-size", Some(128)) {
            Ok(v) => #[verifier::truncate] (v as usize),
            Err(e) => return Err(e),
        };
        let region_num = match get_toml_int(config, "bench.config.region-num", Some(100)) {
            Ok(v) => #[verifier::truncate] (v as usize),
            Err(e) => return Err(e),
        };
        let operations = match get_toml_string(config, "bench.config.operations", Some("d".to_owned())) {
            Ok(v) => v,
            Err(e) => return Err(e),
        };
        let kgen_default = match get_toml_string(config, "defaultcf.data.key-gen", Some("random".to_owned())) {
            Ok(v) => v,
            Err(e) => return Err(e),
        };
        let kgen_lock = match get_toml_string(config, "lockcf.data.key-gen", Some("random".to_owned())) {
            Ok(v) => v,
            Err(e) => return Err(e),
        };
        let kgen_raft = match get_toml_string(config, "raftcf.data.key-gen", Some("random".to_owned())) {
            Ok(v) => v,
            Err(e) => return Err(e),
        };
        let kgen_write = match get_toml_string(config, "writecf.data.key-gen", Some("random".to_owned())) {
            Ok(v) => v,
            Err(e) => return Err(e),
        };
        let vgen_default = match get_toml_string(config, "defaultcf.data.value-gen", Some("random".to_owned())) {
            Ok(v) => v,
            Err(e) => return Err(e),
        };
        let vgen_lock = match get_toml_string(config, "lockcf.data.value-gen", Some("random".to_owned())) {
            Ok(v) => v,
            Err(e) => return Err(e),
        };
        let vgen_raft = match get_toml_string(config, "raftcf.data.value-gen", Some("random".to_owned())) {
            Ok(v) => v,
            Err(e) => return Err(e),
        };
        let vgen_write = match get_toml_string(config, "writecf.data.value-gen", Some("random".to_owned())) {
            Ok(v) => v,
            Err(e) => return Err(e),
        };
        let klen_default = match get_toml_int(config, "defaultcf.data.key-len", Some(32)) {
            Ok(v) => #[verifier::truncate] (v as usize),
            Err(e) => return Err(e),
        };
        let klen_lock = match get_toml_int(config, "lockcf.data.key-len", Some(32)) {
            Ok(v) => #[verifier::truncate] (v as usize),
            Err(e) => return Err(e),
        };
        let klen_raft = match get_toml_int(config, "raftcf.data.key-len", Some(32)) {
            Ok(v) => #[verifier::truncate] (v as usize),
            Err(e) => return Err(e),
        };
        let klen_write = match get_toml_int(config, "writecf.data.key-len", Some(32)) {
            Ok(v) => #[verifier::truncate] (v as usize),
            Err(e) => return Err(e),
        };
        let vlen_default = match get_toml_int(config, "defaultcf.data.value-len", Some(128)) {
            Ok(v) => #[verifier::truncate] (v as usize),
            Err(e) => return Err(e),
        };
        let vlen_lock = match get_toml_int(config, "lockcf.data.value-len", Some(128)) {
            Ok(v) => #[verifier::truncate] (v as usize),
            Err(e) => return Err(e),
        };
        let vlen_raft = match get_toml_int(config, "raftcf.data.value-len", Some(128)) {
            Ok(v) => #[verifier::truncate] (v as usize),
            Err(e) => return Err(e),
        };
        let vlen_write = match get_toml_int(config, "writecf.data.value-len", Some(128)) {
            Ok(v) => #[verifier::truncate] (v as usize),
            Err(e) => return Err(e),
        };
        Ok(
            BenchConfig {
                warmup_cnt,
                bench_cnt,
                batch_size,
                region_num,
                operations,
                kgen_default,
                kgen_lock,
                kgen_raft,
                kgen_write,
                vgen_default,
                vgen_lock,
                vgen_raft,
                vgen_write,
                klen_default,
                klen_lock,
                klen_raft,
                klen_write,
                vlen_default,
                vlen_lock,
                vlen_raft,
                vlen_write,
            },
        )
    }
}

} // verus!
