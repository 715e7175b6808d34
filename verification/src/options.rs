//! Translation of the configuration tree into typed engine and
//! per-column-family tuning options.
//!
//! Every option bundle is built once from the configuration, applying
//! column-family-specific default tables, and is immutable afterwards.
//! All values are held as plain data; converting them into the storage
//! engine's own option objects happens outside the library.

use vstd::prelude::*;

use crate::config::{Config, ConfigEntry, ConfigError, SpecConfigError, spec_get_bool,
    spec_get_int, spec_get_string, get_toml_boolean, get_toml_int, get_toml_string};
use crate::units::{fold_char, MB};
use vstd::string::StringExecFns;

verus! {

/// Compression scheme for one LSM level.
#[derive(Debug, Clone, Copy, PartialEq, Eq, Structural)]
pub enum CompressionType {
    No,
    Snappy,
    Zlib,
    Bz2,
    Lz4,
    Lz4hc,
    Zstd,
}

/// Write-ahead-log recovery mode of the engine.
#[derive(Debug, Clone, Copy, PartialEq, Eq, Structural)]
pub enum RecoveryMode {
    TolerateCorruptedTailRecords,
    AbsoluteConsistency,
    PointInTime,
    SkipAnyCorruptedRecords,
}

/// Recovery mode encoded by a configuration integer, if any.
pub open spec fn spec_recovery_mode_of(mode: i64) -> Option<RecoveryMode> {
    if mode == 0 {
        Some(RecoveryMode::TolerateCorruptedTailRecords)
    } else if mode == 1 {
        Some(RecoveryMode::AbsoluteConsistency)
    } else if mode == 2 {
        Some(RecoveryMode::PointInTime)
    } else if mode == 3 {
        Some(RecoveryMode::SkipAnyCorruptedRecords)
    } else {
        None
    }
}

/// Decode the write-ahead-log recovery mode from its configuration
/// integer; `None` for an unrecognized number.
pub fn parse_rocksdb_wal_recovery_mode(mode: i64) -> (r: Option<RecoveryMode>)
    ensures
        r == spec_recovery_mode_of(mode),
{
    if mode == 0 {
        Some(RecoveryMode::TolerateCorruptedTailRecords)
    } else if mode == 1 {
        Some(RecoveryMode::AbsoluteConsistency)
    } else if mode == 2 {
        Some(RecoveryMode::PointInTime)
    } else if mode == 3 {
        Some(RecoveryMode::SkipAnyCorruptedRecords)
    } else {
        None
    }
}

/// Round a byte count down to a whole number of mebibytes.
pub fn align_to_mb(n: u64) -> (r: u64)
    ensures
        r == n & 0xFFFF_FFFF_FFF0_0000u64,
{
    n & 0xFFFF_FFFF_FFF0_0000u64
}

/// Clamp a block-cache size into `[min_limit, max_limit]`.
pub open spec fn spec_adjust_block_cache_size(cache_size: u64, min_limit: u64, max_limit: u64) -> u64 {
    if cache_size < min_limit {
        min_limit
    } else if cache_size > max_limit {
        max_limit
    } else {
        cache_size
    }
}

/// Clamp a block-cache size into `[min_limit, max_limit]`.
pub fn adjust_block_cache_size(cache_size: u64, min_limit: u64, max_limit: u64) -> (r: u64)
    ensures
        r == spec_adjust_block_cache_size(cache_size, min_limit, max_limit),
{
    if cache_size < min_limit {
        return min_limit;
    }
    if cache_size > max_limit {
        return max_limit;
    }
    cache_size
}

/// Index of the first colon, or the length when there is none.
pub open spec fn colon_pos(s: Seq<char>) -> nat
    decreases s.len(),
{
    if s.len() == 0 || s[0] == ':' {
        0
    } else {
        1 + colon_pos(s.drop_first())
    }
}

pub proof fn lemma_colon_pos_characterize(s: Seq<char>, p: int)
    requires
        0 <= p <= s.len(),
        forall|i: int| 0 <= i < p ==> #[trigger] s[i] != ':',
        p < s.len() ==> s[p] == ':',
    ensures
        colon_pos(s) == p,
    decreases s.len(),
{
    if s.len() == 0 {
    } else if p == 0 {
    } else {
        let t = s.drop_first();
        assert(forall|i: int| 0 <= i < p - 1 ==> #[trigger] t[i] == s[i + 1]);
        lemma_colon_pos_characterize(t, p - 1);
    }
}

/// Split a string at every colon; a string without colons is a single
/// segment, and empty segments are kept.
pub open spec fn spec_colon_split(s: Seq<char>) -> Seq<Seq<char>>
    decreases s.len(),
{
    let p = colon_pos(s) as int;
    if p >= s.len() {
        seq![s]
    } else {
        seq![s.take(p)] + spec_colon_split(s.skip(p + 1))
    }
}

/// Compression scheme named by a configuration segment, matched without
/// regard to ASCII case; `None` for anything unrecognized.
pub open spec fn spec_compression_of(seg: Seq<char>) -> Option<CompressionType> {
    if seg.len() == 2 && fold_char(seg[0]) == 'n' as int && fold_char(seg[1]) == 'o' as int {
        Some(CompressionType::No)
    } else if seg.len() == 6 && fold_char(seg[0]) == 's' as int && fold_char(seg[1]) == 'n' as int
        && fold_char(seg[2]) == 'a' as int && fold_char(seg[3]) == 'p' as int && fold_char(seg[4])
        == 'p' as int && fold_char(seg[5]) == 'y' as int {
        Some(CompressionType::Snappy)
    } else if seg.len() == 4 && fold_char(seg[0]) == 'z' as int && fold_char(seg[1]) == 'l' as int
        && fold_char(seg[2]) == 'i' as int && fold_char(seg[3]) == 'b' as int {
        Some(CompressionType::Zlib)
    } else if seg.len() == 5 && fold_char(seg[0]) == 'b' as int && fold_char(seg[1]) == 'z' as int
        && fold_char(seg[2]) == 'i' as int && fold_char(seg[3]) == 'p' as int && fold_char(seg[4])
        == '2' as int {
        Some(CompressionType::Bz2)
    } else if seg.len() == 5 && fold_char(seg[0]) == 'l' as int && fold_char(seg[1]) == 'z' as int
        && fold_char(seg[2]) == '4' as int && fold_char(seg[3]) == 'h' as int && fold_char(seg[4])
        == 'c' as int {
        Some(CompressionType::Lz4hc)
    } else if seg.len() == 3 && fold_char(seg[0]) == 'l' as int && fold_char(seg[1]) == 'z' as int
        && fold_char(seg[2]) == '4' as int {
        Some(CompressionType::Lz4)
    } else if seg.len() == 4 && fold_char(seg[0]) == 'z' as int && fold_char(seg[1]) == 's' as int
        && fold_char(seg[2]) == 't' as int && fold_char(seg[3]) == 'd' as int {
        Some(CompressionType::Zstd)
    } else {
        None
    }
}

/// Per-level compression list named by the colon-separated segments; the
/// error is the first unrecognized segment.
pub open spec fn spec_compressions_of(segs: Seq<Seq<char>>) -> Result<Seq<CompressionType>, Seq<char>>
    decreases segs.len(),
{
    if segs.len() == 0 {
        Ok(Seq::empty())
    } else {
        match spec_compression_of(segs[0]) {
            Some(c) => match spec_compressions_of(segs.drop_first()) {
                Ok(rest) => Ok(seq![c] + rest),
                Err(e) => Err(e),
            },
            None => Err(segs[0]),
        }
    }
}

/// What `parse_rocksdb_per_level_compression` returns.
pub open spec fn spec_per_level_compression(s: Seq<char>) -> Result<Seq<CompressionType>, Seq<char>> {
    spec_compressions_of(spec_colon_split(s))
}

/// The per-column-family default table: one value for every tunable the
/// translator reads, overridden per column family before translation.
pub struct CfOptValues {
    pub block_size: i64,
    pub block_cache_size: i64,
    pub cache_index_and_filter_blocks: bool,
    pub use_bloom_filter: bool,
    pub whole_key_filtering: bool,
    pub bloom_bits_per_key: i64,
    pub block_based_filter: bool,
    pub compression_per_level: String,
    pub write_buffer_size: i64,
    pub max_write_buffer_number: i64,
    pub min_write_buffer_number_to_merge: i64,
    pub max_bytes_for_level_base: i64,
    pub target_file_size_base: i64,
    pub level_zero_file_num_compaction_trigger: i64,
    pub level_zero_slowdown_writes_trigger: i64,
    pub level_zero_stop_writes_trigger: i64,
    pub compaction_priority: i64,
}

/// The mathematical shadow of `CfOptValues`, with the compression list as
/// a character sequence.
pub struct SpecCfOptValues {
    pub block_size: i64,
    pub block_cache_size: i64,
    pub cache_index_and_filter_blocks: bool,
    pub use_bloom_filter: bool,
    pub whole_key_filtering: bool,
    pub bloom_bits_per_key: i64,
    pub block_based_filter: bool,
    pub compression_per_level: Seq<char>,
    pub write_buffer_size: i64,
    pub max_write_buffer_number: i64,
    pub min_write_buffer_number_to_merge: i64,
    pub max_bytes_for_level_base: i64,
    pub target_file_size_base: i64,
    pub level_zero_file_num_compaction_trigger: i64,
    pub level_zero_slowdown_writes_trigger: i64,
    pub level_zero_stop_writes_trigger: i64,
    pub compaction_priority: i64,
}

impl View for CfOptValues {
    type V = SpecCfOptValues;

    open spec fn view(&self) -> SpecCfOptValues {
        SpecCfOptValues {
            block_size: self.block_size,
            block_cache_size: self.block_cache_size,
            cache_index_and_filter_blocks: self.cache_index_and_filter_blocks,
            use_bloom_filter: self.use_bloom_filter,
            whole_key_filtering: self.whole_key_filtering,
            bloom_bits_per_key: self.bloom_bits_per_key,
            block_based_filter: self.block_based_filter,
            compression_per_level: self.compression_per_level@,
            write_buffer_size: self.write_buffer_size,
            max_write_buffer_number: self.max_write_buffer_number,
            min_write_buffer_number_to_merge: self.min_write_buffer_number_to_merge,
            max_bytes_for_level_base: self.max_bytes_for_level_base,
            target_file_size_base: self.target_file_size_base,
            level_zero_file_num_compaction_trigger: self.level_zero_file_num_compaction_trigger,
            level_zero_slowdown_writes_trigger: self.level_zero_slowdown_writes_trigger,
            level_zero_stop_writes_trigger: self.level_zero_stop_writes_trigger,
            compaction_priority: self.compaction_priority,
        }
    }
}

/// The shared default table: 64 KiB blocks, 256 MiB block cache, no bloom
/// filter, lz4 compression below the top two levels, 128 MiB write
/// buffers.
pub open spec fn spec_default_cf_values() -> SpecCfOptValues {
    SpecCfOptValues {
        block_size: (64 * 1024) as i64,
        block_cache_size: (256 * 1024 * 1024) as i64,
        cache_index_and_filter_blocks: true,
        use_bloom_filter: false,
        whole_key_filtering: true,
        bloom_bits_per_key: 10,
        block_based_filter: false,
        compression_per_level: "no:no:lz4:lz4:lz4:lz4:lz4"@,
        write_buffer_size: (128 * 1024 * 1024) as i64,
        max_write_buffer_number: 5,
        min_write_buffer_number_to_merge: 1,
        max_bytes_for_level_base: (512 * 1024 * 1024) as i64,
        target_file_size_base: (32 * 1024 * 1024) as i64,
        level_zero_file_num_compaction_trigger: 4,
        level_zero_slowdown_writes_trigger: 20,
        level_zero_stop_writes_trigger: 36,
        compaction_priority: 0,
    }
}

impl Default for CfOptValues {
    /// The shared default table that every column family starts from.
    fn default() -> (v: CfOptValues)
        ensures
            v@ == spec_default_cf_values(),
    {
        CfOptValues {
            block_size: 64 * 1024,
            block_cache_size: 256 * 1024 * 1024,
            cache_index_and_filter_blocks: true,
            use_bloom_filter: false,
            whole_key_filtering: true,
            bloom_bits_per_key: 10,
            block_based_filter: false,
            compression_per_level: "no:no:lz4:lz4:lz4:lz4:lz4".to_owned(),
            write_buffer_size: 128 * 1024 * 1024,
            max_write_buffer_number: 5,
            min_write_buffer_number_to_merge: 1,
            max_bytes_for_level_base: 512 * 1024 * 1024,
            target_file_size_base: 32 * 1024 * 1024,
            level_zero_file_num_compaction_trigger: 4,
            level_zero_slowdown_writes_trigger: 20,
            level_zero_stop_writes_trigger: 36,
            compaction_priority: 0,
        }
    }
}

/// Whether an executable character matches a lowercase pattern character
/// without regard to ASCII case.
fn fold_char_is(c: char, l: char) -> (r: bool)
    requires
        !('A' <= l <= 'Z'),
    ensures
        r == (fold_char(c) == l as int),
{
    if c == l {
        true
    } else {
        c >= 'A' && c <= 'Z' && c as u32 + 32 == l as u32
    }
}

/// The compression scheme named by `s[from..to]`, if any.
fn compression_of_segment(s: &str, from: usize, to: usize) -> (r: Option<CompressionType>)
    requires
        from <= to <= s@.len(),
    ensures
        r == spec_compression_of(s@.subrange(from as int, to as int)),
{
    let ghost seg = s@.subrange(from as int, to as int);
    proof {
        assert(forall|j: int| 0 <= j < seg.len() ==> #[trigger] seg[j] == s@[from + j]);
    }
    let len = to - from;
    if len == 2 {
        let c0 = s.get_char(from);
        let c1 = s.get_char(from + 1);
        if fold_char_is(c0, 'n') && fold_char_is(c1, 'o') {
            Some(CompressionType::No)
        } else {
            None
        }
    } else if len == 6 {
        let c0 = s.get_char(from);
        let c1 = s.get_char(from + 1);
        let c2 = s.get_char(from + 2);
        let c3 = s.get_char(from + 3);
        let c4 = s.get_char(from + 4);
        let c5 = s.get_char(from + 5);
        if fold_char_is(c0, 's') && fold_char_is(c1, 'n') && fold_char_is(c2, 'a')
            && fold_char_is(c3, 'p') && fold_char_is(c4, 'p') && fold_char_is(c5, 'y') {
            Some(CompressionType::Snappy)
        } else {
            None
        }
    } else if len == 4 {
        let c0 = s.get_char(from);
        let c1 = s.get_char(from + 1);
        let c2 = s.get_char(from + 2);
        let c3 = s.get_char(from + 3);
        if fold_char_is(c0, 'z') && fold_char_is(c1, 'l') && fold_char_is(c2, 'i')
            && fold_char_is(c3, 'b') {
            Some(CompressionType::Zlib)
        } else if fold_char_is(c0, 'z') && fold_char_is(c1, 's') && fold_char_is(c2, 't')
            && fold_char_is(c3, 'd') {
            Some(CompressionType::Zstd)
        } else {
            None
        }
    } else if len == 5 {
        let c0 = s.get_char(from);
        let c1 = s.get_char(from + 1);
        let c2 = s.get_char(from + 2);
        let c3 = s.get_char(from + 3);
        let c4 = s.get_char(from + 4);
        if fold_char_is(c0, 'b') && fold_char_is(c1, 'z') && fold_char_is(c2, 'i')
            && fold_char_is(c3, 'p') && fold_char_is(c4, '2') {
            Some(CompressionType::Bz2)
        } else if fold_char_is(c0, 'l') && fold_char_is(c1, 'z') && fold_char_is(c2, '4')
            && fold_char_is(c3, 'h') && fold_char_is(c4, 'c') {
            Some(CompressionType::Lz4hc)
        } else {
            None
        }
    } else if len == 3 {
        let c0 = s.get_char(from);
        let c1 = s.get_char(from + 1);
        let c2 = s.get_char(from + 2);
        if fold_char_is(c0, 'l') && fold_char_is(c1, 'z') && fold_char_is(c2, '4') {
            Some(CompressionType::Lz4)
        } else {
            None
        }
    } else {
        None
    }
}

/// Bloom filter settings of one column family.
#[derive(Debug, Clone, Copy, PartialEq, Eq, Structural)]
pub struct BloomConfig {
    pub bits_per_key: i64,
    pub block_based: bool,
    pub whole_key_filtering: bool,
}

/// How the engine derives a lookup prefix from a key.
#[derive(Debug, Clone, Copy, PartialEq, Eq, Structural)]
pub enum PrefixExtractor {
    /// No extractor configured.
    Unset,
    /// The whole key is its own prefix.
    Noop,
    /// Drop a fixed-length suffix (a trailing timestamp).
    FixedSuffix(usize),
    /// Keep a fixed-length prefix (a region-log prefix).
    FixedPrefix(usize),
}

/// The translated tuning of one column family, held as plain data.
#[derive(Debug, Clone)]
pub struct CfTuning {
    pub block_size: i64,
    pub block_cache_size: i64,
    pub cache_index_and_filter_blocks: bool,
    pub bloom: Option<BloomConfig>,
    pub compression_per_level: Vec<CompressionType>,
    pub write_buffer_size: i64,
    pub max_write_buffer_number: i64,
    pub min_write_buffer_number_to_merge: i64,
    pub max_bytes_for_level_base: i64,
    pub target_file_size_base: i64,
    pub level_zero_file_num_compaction_trigger: i64,
    pub level_zero_slowdown_writes_trigger: i64,
    pub level_zero_stop_writes_trigger: i64,
    pub prefix_extractor: PrefixExtractor,
    pub insert_hint_prefix_extractor: PrefixExtractor,
    pub memtable_prefix_bloom: bool,
}

/// The mathematical shadow of `CfTuning`, with the compression list as a
/// sequence.
pub struct SpecCfTuning {
    pub block_size: i64,
    pub block_cache_size: i64,
    pub cache_index_and_filter_blocks: bool,
    pub bloom: Option<BloomConfig>,
    pub compression_per_level: Seq<CompressionType>,
    pub write_buffer_size: i64,
    pub max_write_buffer_number: i64,
    pub min_write_buffer_number_to_merge: i64,
    pub max_bytes_for_level_base: i64,
    pub target_file_size_base: i64,
    pub level_zero_file_num_compaction_trigger: i64,
    pub level_zero_slowdown_writes_trigger: i64,
    pub level_zero_stop_writes_trigger: i64,
    pub prefix_extractor: PrefixExtractor,
    pub insert_hint_prefix_extractor: PrefixExtractor,
    pub memtable_prefix_bloom: bool,
}

impl View for CfTuning {
    type V = SpecCfTuning;

    open spec fn view(&self) -> SpecCfTuning {
        SpecCfTuning {
            block_size: self.block_size,
            block_cache_size: self.block_cache_size,
            cache_index_and_filter_blocks: self.cache_index_and_filter_blocks,
            bloom: self.bloom,
            compression_per_level: self.compression_per_level@,
            write_buffer_size: self.write_buffer_size,
            max_write_buffer_number: self.max_write_buffer_number,
            min_write_buffer_number_to_merge: self.min_write_buffer_number_to_merge,
            max_bytes_for_level_base: self.max_bytes_for_level_base,
            target_file_size_base: self.target_file_size_base,
            level_zero_file_num_compaction_trigger: self.level_zero_file_num_compaction_trigger,
            level_zero_slowdown_writes_trigger: self.level_zero_slowdown_writes_trigger,
            level_zero_stop_writes_trigger: self.level_zero_stop_writes_trigger,
            prefix_extractor: self.prefix_extractor,
            insert_hint_prefix_extractor: self.insert_hint_prefix_extractor,
            memtable_prefix_bloom: self.memtable_prefix_bloom,
        }
    }
}

/// The tuning of one named column family.
#[derive(Debug, Clone)]
pub struct CFOptions {
    pub cf: String,
    pub options: CfTuning,
}

impl CFOptions {
    /// Pair a column-family name with its tuning.
    pub fn new(cf: &str, options: CfTuning) -> (r: CFOptions)
        ensures
            r.cf@ == cf@,
            r.options == options,
    {
        CFOptions { cf: cf.to_owned(), options }
    }
}

/// The full dotted key of a per-column-family tunable.
pub open spec fn spec_cf_key(cf: Seq<char>, tail: Seq<char>) -> Seq<char> {
    "rocksdb."@ + cf + "."@ + tail
}

/// Build the full dotted key of a per-column-family tunable.
fn cf_key(cf: &str, tail: &str) -> (k: String)
    ensures
        k@ == spec_cf_key(cf@, tail@),
{
    let mut k = "rocksdb.".to_owned();
    k.append(cf);
    k.append(".");
    k.append(tail);
    k
}

/// Parse a colon-separated per-level compression list such as
/// `"no:no:lz4:lz4:lz4:lz4:lz4"`, matching each segment without regard to
/// ASCII case.  The error carries the first unrecognized segment.
pub fn parse_rocksdb_per_level_compression(tp: &str) -> (r: Result<Vec<CompressionType>, ConfigError>)
    ensures
        match spec_per_level_compression(tp@) {
            Ok(cs) => r matches Ok(v) && v@ == cs,
            Err(seg) => r matches Err(e) && e@ == SpecConfigError::InvalidEnum(seg),
        },
{
    let n = tp.unicode_len();
    let mut result: Vec<CompressionType> = Vec::new();
    let mut start: usize = 0;
    proof {
        assert(tp@.skip(0) =~= tp@);
        match spec_per_level_compression(tp@) {
            Ok(cs) => {
                assert(result@ + cs =~= cs);
            },
            Err(_) => {},
        }
    }
    loop
        invariant
            0 <= start <= n,
            n == tp@.len(),
            match spec_compressions_of(spec_colon_split(tp@.skip(start as int))) {
                Ok(rest) => spec_per_level_compression(tp@) matches Ok(cs) && cs == result@ + rest,
                Err(e) => spec_per_level_compression(tp@) == Err::<Seq<CompressionType>, Seq<char>>(
                    e,
                ),
            },
        decreases n - start,
    {
        // Find the next colon, or the end of the string.
        let mut i: usize = start;
        loop
            invariant
                start <= i <= n,
                n == tp@.len(),
                forall|j: int| start <= j < i ==> #[trigger] tp@[j] != ':',
            ensures
                start <= i <= n,
                forall|j: int| start <= j < i ==> #[trigger] tp@[j] != ':',
                i < n ==> tp@[i as int] == ':',
            decreases n - i,
        {
            if i == n {
                break;
            }
            if tp.get_char(i) == ':' {
                break;
            }
            i = i + 1;
        }
        let ghost rem = tp@.skip(start as int);
        let ghost seg = tp@.subrange(start as int, i as int);
        proof {
            assert(forall|j: int| 0 <= j < rem.len() ==> #[trigger] rem[j] == tp@[start + j]);
            lemma_colon_pos_characterize(rem, i - start as int);
            assert(rem.take(i - start as int) =~= seg);
        }
        let parsed = compression_of_segment(tp, start, i);
        match parsed {
            Some(c) => {
                let ghost before = result@;
                result.push(c);
                proof {
                    assert(result@ =~= before + seq![c]);
                }
                if i == n {
                    proof {
                        assert(seg =~= rem);
                        assert(spec_colon_split(rem) == seq![seg]);
                        assert(seq![seg][0] == seg);
                        assert(seq![seg].drop_first() =~= Seq::<Seq<char>>::empty());
                        assert(spec_compressions_of(Seq::<Seq<char>>::empty()) == Ok::<
                            Seq<CompressionType>,
                            Seq<char>,
                        >(Seq::empty()));
                        assert(seq![c] + Seq::<CompressionType>::empty() =~= seq![c]);
                        assert(spec_compressions_of(seq![seg]) == Ok::<
                            Seq<CompressionType>,
                            Seq<char>,
                        >(seq![c]));
                        assert(before + seq![c] =~= result@);
                    }
                    return Ok(result);
                }
                proof {
                    let tail = tp@.skip(i as int + 1);
                    assert(rem.skip(i - start as int + 1) =~= tail);
                    assert(spec_colon_split(rem) == seq![seg] + spec_colon_split(tail));
                    assert((seq![seg] + spec_colon_split(tail)).drop_first() =~= spec_colon_split(
                        tail,
                    ));
                    match spec_compressions_of(spec_colon_split(tail)) {
                        Ok(rest) => {
                            assert(before + (seq![c] + rest) =~= result@ + rest);
                        },
                        Err(_) => {},
                    }
                }
                start = i + 1;
            },
            None => {
                proof {
                    if i < n {
                        let tail = tp@.skip(i as int + 1);
                        assert(rem.skip(i - start as int + 1) =~= tail);
                        assert(spec_colon_split(rem) == seq![seg] + spec_colon_split(tail));
                    } else {
                        assert(seg =~= rem);
                        assert(spec_colon_split(rem) == seq![seg]);
                        assert(seq![seg][0] == seg);
                    }
                }
                let text = tp.substring_char(start, i).to_owned();
                return Err(ConfigError::InvalidEnum(text));
            },
        }
    }
}

/// What translating one column family from the configuration yields: each
/// tunable from its key under `rocksdb.<cf>.`, falling back to the default
/// table, with the first failing lookup's error, in the order the keys are
/// read.
pub open spec fn spec_cf_tuning(es: Seq<ConfigEntry>, cf: Seq<char>, dv: SpecCfOptValues) -> Result<
    SpecCfTuning,
    SpecConfigError,
> {
    let r_block_size = spec_get_int(es, spec_cf_key(cf, "block-size"@), Some(dv.block_size));
    let r_block_cache = spec_get_int(
        es,
        spec_cf_key(cf, "block-cache-size"@),
        Some(dv.block_cache_size),
    );
    let r_cache_index = spec_get_bool(
        es,
        spec_cf_key(cf, "cache-index-and-filter-blocks"@),
        Some(dv.cache_index_and_filter_blocks),
    );
    let r_bloom_bits = spec_get_int(
        es,
        spec_cf_key(cf, "bloom-filter-bits-per-key"@),
        Some(dv.bloom_bits_per_key),
    );
    let r_block_based = spec_get_bool(
        es,
        spec_cf_key(cf, "block-based-bloom-filter"@),
        Some(dv.block_based_filter),
    );
    let r_cpl = spec_get_string(
        es,
        spec_cf_key(cf, "compression-per-level"@),
        Some(dv.compression_per_level),
    );
    let r_wbs = spec_get_int(es, spec_cf_key(cf, "write-buffer-size"@), Some(dv.write_buffer_size));
    let r_mwbn = spec_get_int(
        es,
        spec_cf_key(cf, "max-write-buffer-number"@),
        Some(dv.max_write_buffer_number),
    );
    let r_minwb = spec_get_int(
        es,
        spec_cf_key(cf, "min-write-buffer-number-to-merge"@),
        Some(dv.min_write_buffer_number_to_merge),
    );
    let r_mbflb = spec_get_int(
        es,
        spec_cf_key(cf, "max-bytes-for-level-base"@),
        Some(dv.max_bytes_for_level_base),
    );
    let r_tfsb = spec_get_int(
        es,
        spec_cf_key(cf, "target-file-size-base"@),
        Some(dv.target_file_size_base),
    );
    let r_l0c = spec_get_int(
        es,
        spec_cf_key(cf, "level0-file-num-compaction-trigger"@),
        Some(dv.level_zero_file_num_compaction_trigger),
    );
    let r_l0slow = spec_get_int(
        es,
        spec_cf_key(cf, "level0-slowdown-writes-trigger"@),
        Some(dv.level_zero_slowdown_writes_trigger),
    );
    let r_l0stop = spec_get_int(
        es,
        spec_cf_key(cf, "level0-stop-writes-trigger"@),
        Some(dv.level_zero_stop_writes_trigger),
    );
    if r_block_size is Err {
        Err(r_block_size->Err_0)
    } else if r_block_cache is Err {
        Err(r_block_cache->Err_0)
    } else if r_cache_index is Err {
        Err(r_cache_index->Err_0)
    } else if dv.use_bloom_filter && r_bloom_bits is Err {
        Err(r_bloom_bits->Err_0)
    } else if dv.use_bloom_filter && r_block_based is Err {
        Err(r_block_based->Err_0)
    } else if r_cpl is Err {
        Err(r_cpl->Err_0)
    } else if spec_per_level_compression(r_cpl->Ok_0) is Err {
        Err(SpecConfigError::InvalidEnum(spec_per_level_compression(r_cpl->Ok_0)->Err_0))
    } else if r_wbs is Err {
        Err(r_wbs->Err_0)
    } else if r_mwbn is Err {
        Err(r_mwbn->Err_0)
    } else if r_minwb is Err {
        Err(r_minwb->Err_0)
    } else if r_mbflb is Err {
        Err(r_mbflb->Err_0)
    } else if r_tfsb is Err {
        Err(r_tfsb->Err_0)
    } else if r_l0c is Err {
        Err(r_l0c->Err_0)
    } else if r_l0slow is Err {
        Err(r_l0slow->Err_0)
    } else if r_l0stop is Err {
        Err(r_l0stop->Err_0)
    } else {
        Ok(
            SpecCfTuning {
                block_size: r_block_size->Ok_0,
                block_cache_size: r_block_cache->Ok_0,
                cache_index_and_filter_blocks: r_cache_index->Ok_0,
                bloom: if dv.use_bloom_filter {
                    Some(
                        BloomConfig {
                            bits_per_key: r_bloom_bits->Ok_0,
                            block_based: r_block_based->Ok_0,
                            whole_key_filtering: dv.whole_key_filtering,
                        },
                    )
                } else {
                    None
                },
                compression_per_level: spec_per_level_compression(r_cpl->Ok_0)->Ok_0,
                write_buffer_size: r_wbs->Ok_0,
                max_write_buffer_number: r_mwbn->Ok_0,
                min_write_buffer_number_to_merge: r_minwb->Ok_0,
                max_bytes_for_level_base: r_mbflb->Ok_0,
                target_file_size_base: r_tfsb->Ok_0,
                level_zero_file_num_compaction_trigger: r_l0c->Ok_0,
                level_zero_slowdown_writes_trigger: r_l0slow->Ok_0,
                level_zero_stop_writes_trigger: r_l0stop->Ok_0,
                prefix_extractor: PrefixExtractor::Unset,
                insert_hint_prefix_extractor: PrefixExtractor::Unset,
                memtable_prefix_bloom: false,
            },
        )
    }
}

/// Translate one column family's tuning from the configuration, reading
/// each key under `rocksdb.<cf>.` and falling back to the default table.
/// No prefix extractor is configured here; the per-column-family wrappers
/// add those.
pub fn get_rocksdb_cf_option(config: &Config, cf: &str, default_values: CfOptValues) -> (r: Result<
    CfTuning,
    ConfigError,
>)
    ensures
        match spec_cf_tuning(config.entries@, cf@, default_values@) {
            Ok(t) => r matches Ok(v) && v@ == t,
            Err(e) => r matches Err(err) && err@ == e,
        },
{
    let k_block_size = cf_key(cf, "block-size");
    let block_size = match get_toml_int(config, k_block_size.as_str(), Some(
        default_values.block_size,
    )) {
        Ok(v) => v,
        Err(e) => return Err(e),
    };
    let k_block_cache = cf_key(cf, "block-cache-size");
    let block_cache_size = match get_toml_int(config, k_block_cache.as_str(), Some(
        default_values.block_cache_size,
    )) {
        Ok(v) => v,
        Err(e) => return Err(e),
    };
    let k_cache_index = cf_key(cf, "cache-index-and-filter-blocks");
    let cache_index = match get_toml_boolean(config, k_cache_index.as_str(), Some(
        default_values.cache_index_and_filter_blocks,
    )) {
        Ok(v) => v,
        Err(e) => return Err(e),
    };
    let bloom: Option<BloomConfig> = if default_values.use_bloom_filter {
        let k_bits = cf_key(cf, "bloom-filter-bits-per-key");
        let bits = match get_toml_int(config, k_bits.as_str(), Some(
            default_values.bloom_bits_per_key,
        )) {
            Ok(v) => v,
            Err(e) => return Err(e),
        };
        let k_block_based = cf_key(cf, "block-based-bloom-filter");
        let block_based = match get_toml_boolean(config, k_block_based.as_str(), Some(
            default_values.block_based_filter,
        )) {
            Ok(v) => v,
            Err(e) => return Err(e),
        };
        Some(
            BloomConfig {
                bits_per_key: bits,
                block_based,
                whole_key_filtering: default_values.whole_key_filtering,
            },
        )
    } else {
        None
    };
    let k_cpl = cf_key(cf, "compression-per-level");
    let cpl_text = match get_toml_string(config, k_cpl.as_str(), Some(
        default_values.compression_per_level.clone(),
    )) {
        Ok(v) => v,
        Err(e) => return Err(e),
    };
    let compression_per_level = match parse_rocksdb_per_level_compression(cpl_text.as_str()) {
        Ok(v) => v,
        Err(e) => return Err(e),
    };
    let k_wbs = cf_key(cf, "write-buffer-size");
    let write_buffer_size = match get_toml_int(config, k_wbs.as_str(), Some(
        default_values.write_buffer_size,
    )) {
        Ok(v) => v,
        Err(e) => return Err(e),
    };
    let k_mwbn = cf_key(cf, "max-write-buffer-number");
    let max_write_buffer_number = match get_toml_int(config, k_mwbn.as_str(), Some(
        default_values.max_write_buffer_number,
    )) {
        Ok(v) => v,
        Err(e) => return Err(e),
    };
    let k_minwb = cf_key(cf, "min-write-buffer-number-to-merge");
    let min_write_buffer_number_to_merge = match get_toml_int(config, k_minwb.as_str(), Some(
        default_values.min_write_buffer_number_to_merge,
    )) {
        Ok(v) => v,
        Err(e) => return Err(e),
    };
    let k_mbflb = cf_key(cf, "max-bytes-for-level-base");
    let max_bytes_for_level_base = match get_toml_int(config, k_mbflb.as_str(), Some(
        default_values.max_bytes_for_level_base,
    )) {
        Ok(v) => v,
        Err(e) => return Err(e),
    };
    let k_tfsb = cf_key(cf, "target-file-size-base");
    let target_file_size_base = match get_toml_int(config, k_tfsb.as_str(), Some(
        default_values.target_file_size_base,
    )) {
        Ok(v) => v,
        Err(e) => return Err(e),
    };
    let k_l0c = cf_key(cf, "level0-file-num-compaction-trigger");
    let level_zero_file_num_compaction_trigger = match get_toml_int(config, k_l0c.as_str(), Some(
        default_values.level_zero_file_num_compaction_trigger,
    )) {
        Ok(v) => v,
        Err(e) => return Err(e),
    };
    let k_l0slow = cf_key(cf, "level0-slowdown-writes-trigger");
    let level_zero_slowdown_writes_trigger = match get_toml_int(config, k_l0slow.as_str(), Some(
        default_values.level_zero_slowdown_writes_trigger,
    )) {
        Ok(v) => v,
        Err(e) => return Err(e),
    };
    let k_l0stop = cf_key(cf, "level0-stop-writes-trigger");
    let level_zero_stop_writes_trigger = match get_toml_int(config, k_l0stop.as_str(), Some(
        default_values.level_zero_stop_writes_trigger,
    )) {
        Ok(v) => v,
        Err(e) => return Err(e),
    };
    Ok(
        CfTuning {
            block_size,
            block_cache_size,
            cache_index_and_filter_blocks: cache_index,
            bloom,
            compression_per_level,
            write_buffer_size,
            max_write_buffer_number,
            min_write_buffer_number_to_merge,
            max_bytes_for_level_base,
            target_file_size_base,
            level_zero_file_num_compaction_trigger,
            level_zero_slowdown_writes_trigger,
            level_zero_stop_writes_trigger,
            prefix_extractor: PrefixExtractor::Unset,
            insert_hint_prefix_extractor: PrefixExtractor::Unset,
            memtable_prefix_bloom: false,
        },
    )
}

/// Byte-count constants used by the per-column-family default tables.
pub const RAFTCF_MIN_MEM: u64 = 256 * 1024 * 1024;
pub const RAFTCF_MAX_MEM: u64 = 2 * 1024 * 1024 * 1024;
pub const LOCKCF_MIN_MEM: u64 = 256 * 1024 * 1024;
pub const LOCKCF_MAX_MEM: u64 = 1024 * 1024 * 1024;

/// Translate the `default` column family: the shared defaults plus a
/// whole-key bloom filter.
pub fn get_rocksdb_default_cf_option(config: &Config) -> (r: Result<CfTuning, ConfigError>)
    ensures
        match spec_cf_tuning(
            config.entries@,
            "defaultcf"@,
            (SpecCfOptValues {
                use_bloom_filter: true,
                whole_key_filtering: true,
                ..spec_default_cf_values()
            }),
        ) {
            Ok(t) => r matches Ok(v) && v@ == t,
            Err(e) => r matches Err(err) && err@ == e,
        },
{
    let mut default_values = CfOptValues::default();
    default_values.use_bloom_filter = true;
    default_values.whole_key_filtering = true;
    get_rocksdb_cf_option(config, "defaultcf", default_values)
}

/// Translate the `write` column family: a bloom filter keyed on the key
/// prefix that excludes the trailing eight-byte timestamp, with a
/// memtable prefix bloom filter.
pub fn get_rocksdb_write_cf_option(config: &Config) -> (r: Result<CfTuning, ConfigError>)
    ensures
        match spec_cf_tuning(
            config.entries@,
            "writecf"@,
            (SpecCfOptValues {
                use_bloom_filter: true,
                whole_key_filtering: false,
                ..spec_default_cf_values()
            }),
        ) {
            Ok(t) => r matches Ok(v) && v@ == (SpecCfTuning {
                prefix_extractor: PrefixExtractor::FixedSuffix(8),
                memtable_prefix_bloom: true,
                ..t
            }),
            Err(e) => r matches Err(err) && err@ == e,
        },
{
    let mut default_values = CfOptValues::default();
    default_values.use_bloom_filter = true;
    default_values.whole_key_filtering = false;
    let mut opts = match get_rocksdb_cf_option(config, "writecf", default_values) {
        Ok(v) => v,
        Err(e) => return Err(e),
    };
    opts.prefix_extractor = PrefixExtractor::FixedSuffix(8);
    opts.memtable_prefix_bloom = true;
    Ok(opts)
}

/// Translate the `raft` column family: a clamped block cache and a
/// memtable insert hint keyed on the fixed-length region-log prefix.
pub fn get_rocksdb_raftlog_cf_option(config: &Config) -> (r: Result<CfTuning, ConfigError>)
    ensures
        match spec_cf_tuning(
            config.entries@,
            "raftcf"@,
            (SpecCfOptValues {
                block_cache_size: spec_adjust_block_cache_size(
                    134217728,
                    RAFTCF_MIN_MEM,
                    RAFTCF_MAX_MEM,
                ) as i64,
                ..spec_default_cf_values()
            }),
        ) {
            Ok(t) => r matches Ok(v) && v@ == (SpecCfTuning {
                insert_hint_prefix_extractor: PrefixExtractor::FixedPrefix(11),
                ..t
            }),
            Err(e) => r matches Err(err) && err@ == e,
        },
{
    let block_cache_size = adjust_block_cache_size(134217728, RAFTCF_MIN_MEM, RAFTCF_MAX_MEM);
    let mut default_values = CfOptValues::default();
    default_values.block_cache_size = block_cache_size as i64;
    let mut opts = match get_rocksdb_cf_option(config, "raftcf", default_values) {
        Ok(v) => v,
        Err(e) => return Err(e),
    };
    let hint_len = crate::region_raft_prefix_len();
    opts.insert_hint_prefix_extractor = PrefixExtractor::FixedPrefix(hint_len);
    Ok(opts)
}

/// Translate the `lock` column family: small uncompressed blocks, an
/// aggressive level-zero compaction trigger, a whole-key bloom filter,
/// and a memtable prefix bloom filter over the whole key.
pub fn get_rocksdb_lock_cf_option(config: &Config) -> (r: Result<CfTuning, ConfigError>)
    ensures
        match spec_cf_tuning(
            config.entries@,
            "lockcf"@,
            (SpecCfOptValues {
                block_cache_size: spec_adjust_block_cache_size(
                    134217728,
                    LOCKCF_MIN_MEM,
                    LOCKCF_MAX_MEM,
                ) as i64,
                block_size: (16 * 1024) as i64,
                use_bloom_filter: true,
                whole_key_filtering: true,
                compression_per_level: "no:no:no:no:no:no:no"@,
                level_zero_file_num_compaction_trigger: 1,
                max_bytes_for_level_base: (128 * 1024 * 1024) as i64,
                ..spec_default_cf_values()
            }),
        ) {
            Ok(t) => r matches Ok(v) && v@ == (SpecCfTuning {
                prefix_extractor: PrefixExtractor::Noop,
                memtable_prefix_bloom: true,
                ..t
            }),
            Err(e) => r matches Err(err) && err@ == e,
        },
{
    let block_cache_size = adjust_block_cache_size(134217728, LOCKCF_MIN_MEM, LOCKCF_MAX_MEM);
    let mut default_values = CfOptValues::default();
    default_values.block_cache_size = block_cache_size as i64;
    default_values.block_size = 16 * 1024;
    default_values.use_bloom_filter = true;
    default_values.whole_key_filtering = true;
    default_values.compression_per_level = "no:no:no:no:no:no:no".to_owned();
    default_values.level_zero_file_num_compaction_trigger = 1;
    default_values.max_bytes_for_level_base = 128 * 1024 * 1024;
    let mut opts = match get_rocksdb_cf_option(config, "lockcf", default_values) {
        Ok(v) => v,
        Err(e) => return Err(e),
    };
    opts.prefix_extractor = PrefixExtractor::Noop;
    opts.memtable_prefix_bloom = true;
    Ok(opts)
}

/// Global engine tuning, held as plain data.  Empty directory strings
/// mean "not configured"; optional fields are set only when their
/// governing switch is on.
#[derive(Debug, Clone)]
pub struct DbOptions {
    pub wal_recovery_mode: RecoveryMode,
    pub wal_dir: String,
    pub wal_ttl_seconds: i64,
    pub wal_size_limit_mb: u64,
    pub max_total_wal_size: i64,
    pub max_background_compactions: i64,
    pub max_background_flushes: i64,
    pub base_background_compactions: i64,
    pub max_manifest_file_size: i64,
    pub create_if_missing: bool,
    pub max_open_files: i64,
    pub enable_statistics: bool,
    pub stats_dump_period_sec: Option<i64>,
    pub compaction_readahead_size: i64,
    pub info_log_max_size: i64,
    pub info_log_roll_time_secs: i64,
    pub info_log_dir: String,
    pub rate_bytes_per_sec: Option<i64>,
    pub max_sub_compactions: i64,
    pub writable_file_max_buffer_size: i64,
    pub use_direct_io_for_flush_and_compaction: bool,
}

/// The mathematical shadow of `DbOptions`, with directories as character
/// sequences.
pub struct SpecDbOptions {
    pub wal_recovery_mode: RecoveryMode,
    pub wal_dir: Seq<char>,
    pub wal_ttl_seconds: i64,
    pub wal_size_limit_mb: u64,
    pub max_total_wal_size: i64,
    pub max_background_compactions: i64,
    pub max_background_flushes: i64,
    pub base_background_compactions: i64,
    pub max_manifest_file_size: i64,
    pub create_if_missing: bool,
    pub max_open_files: i64,
    pub enable_statistics: bool,
    pub stats_dump_period_sec: Option<i64>,
    pub compaction_readahead_size: i64,
    pub info_log_max_size: i64,
    pub info_log_roll_time_secs: i64,
    pub info_log_dir: Seq<char>,
    pub rate_bytes_per_sec: Option<i64>,
    pub max_sub_compactions: i64,
    pub writable_file_max_buffer_size: i64,
    pub use_direct_io_for_flush_and_compaction: bool,
}

impl View for DbOptions {
    type V = SpecDbOptions;

    open spec fn view(&self) -> SpecDbOptions {
        SpecDbOptions {
            wal_recovery_mode: self.wal_recovery_mode,
            wal_dir: self.wal_dir@,
            wal_ttl_seconds: self.wal_ttl_seconds,
            wal_size_limit_mb: self.wal_size_limit_mb,
            max_total_wal_size: self.max_total_wal_size,
            max_background_compactions: self.max_background_compactions,
            max_background_flushes: self.max_background_flushes,
            base_background_compactions: self.base_background_compactions,
            max_manifest_file_size: self.max_manifest_file_size,
            create_if_missing: self.create_if_missing,
            max_open_files: self.max_open_files,
            enable_statistics: self.enable_statistics,
            stats_dump_period_sec: self.stats_dump_period_sec,
            compaction_readahead_size: self.compaction_readahead_size,
            info_log_max_size: self.info_log_max_size,
            info_log_roll_time_secs: self.info_log_roll_time_secs,
            info_log_dir: self.info_log_dir@,
            rate_bytes_per_sec: self.rate_bytes_per_sec,
            max_sub_compactions: self.max_sub_compactions,
            writable_file_max_buffer_size: self.writable_file_max_buffer_size,
            use_direct_io_for_flush_and_compaction: self.use_direct_io_for_flush_and_compaction,
        }
    }
}

/// Milliseconds to whole seconds, truncating toward zero.
pub open spec fn spec_ms_to_secs(ms: i64) -> int {
    if ms >= 0 {
        ms as int / 1000
    } else {
        -((-(ms as int)) / 1000)
    }
}

/// The configured write-ahead-log size limit in whole mebibytes.
pub open spec fn spec_wal_size_limit_mb(limit: i64) -> u64 {
    ((((limit as u64) & 0xFFFF_FFFF_FFF0_0000u64) as int) / 0x100000) as u64
}

/// What translating the global engine options yields: each tunable from
/// its key under `rocksdb.`, with the documented default, and the first
/// failing lookup's error, in the order the keys are read.
pub open spec fn spec_db_options(es: Seq<ConfigEntry>) -> Result<SpecDbOptions, SpecConfigError> {
    let r_rmode = spec_get_int(es, "rocksdb.wal-recovery-mode"@, Some(2));
    let r_wal_dir = spec_get_string(es, "rocksdb.wal-dir"@, Some(Seq::empty()));
    let r_ttl = spec_get_int(es, "rocksdb.wal-ttl-seconds"@, Some(0));
    let r_wsl = spec_get_int(es, "rocksdb.wal-size-limit"@, Some(0));
    let r_mtws = spec_get_int(es, "rocksdb.max-total-wal-size"@, Some(0x100000000));
    let r_mbc = spec_get_int(es, "rocksdb.max-background-compactions"@, Some(6));
    let r_mbf = spec_get_int(es, "rocksdb.max-background-flushes"@, Some(2));
    let r_bbc = spec_get_int(es, "rocksdb.base-background-compactions"@, Some(1));
    let r_mmfs = spec_get_int(es, "rocksdb.max-manifest-file-size"@, Some(0x1400000));
    let r_cim = spec_get_bool(es, "rocksdb.create-if-missing"@, Some(true));
    let r_mof = spec_get_int(es, "rocksdb.max-open-files"@, Some(40960));
    let r_stats = spec_get_bool(es, "rocksdb.enable-statistics"@, Some(true));
    let r_period = spec_get_int(es, "rocksdb.stats-dump-period-sec"@, Some(600));
    let r_readahead = spec_get_int(es, "rocksdb.compaction-readahead-size"@, Some(0));
    let r_logmax = spec_get_int(es, "rocksdb.info-log-max-size"@, Some(0));
    let r_roll = spec_get_int(es, "rocksdb.info-log-roll-time"@, Some(0));
    let r_logdir = spec_get_string(es, "rocksdb.info-log-dir"@, Some(Seq::empty()));
    let r_rate = spec_get_int(es, "rocksdb.rate-bytes-per-sec"@, Some(0));
    let r_msc = spec_get_int(es, "rocksdb.max-sub-compactions"@, Some(1));
    let r_wfmbs = spec_get_int(es, "rocksdb.writable-file-max-buffer-size"@, Some(0x100000));
    let r_dio = spec_get_bool(es, "rocksdb.use-direct-io-for-flush-and-compaction"@, Some(false));
    if r_rmode is Err {
        Err(r_rmode->Err_0)
    } else if spec_recovery_mode_of(r_rmode->Ok_0) is None {
        Err(SpecConfigError::InvalidEnum("rocksdb.wal-recovery-mode"@))
    } else if r_wal_dir is Err {
        Err(r_wal_dir->Err_0)
    } else if r_ttl is Err {
        Err(r_ttl->Err_0)
    } else if r_wsl is Err {
        Err(r_wsl->Err_0)
    } else if r_mtws is Err {
        Err(r_mtws->Err_0)
    } else if r_mbc is Err {
        Err(r_mbc->Err_0)
    } else if r_mbf is Err {
        Err(r_mbf->Err_0)
    } else if r_bbc is Err {
        Err(r_bbc->Err_0)
    } else if r_mmfs is Err {
        Err(r_mmfs->Err_0)
    } else if r_cim is Err {
        Err(r_cim->Err_0)
    } else if r_mof is Err {
        Err(r_mof->Err_0)
    } else if r_stats is Err {
        Err(r_stats->Err_0)
    } else if r_stats->Ok_0 && r_period is Err {
        Err(r_period->Err_0)
    } else if r_readahead is Err {
        Err(r_readahead->Err_0)
    } else if r_logmax is Err {
        Err(r_logmax->Err_0)
    } else if r_roll is Err {
        Err(r_roll->Err_0)
    } else if r_logdir is Err {
        Err(r_logdir->Err_0)
    } else if r_rate is Err {
        Err(r_rate->Err_0)
    } else if r_msc is Err {
        Err(r_msc->Err_0)
    } else if r_wfmbs is Err {
        Err(r_wfmbs->Err_0)
    } else if r_dio is Err {
        Err(r_dio->Err_0)
    } else {
        Ok(
            SpecDbOptions {
                wal_recovery_mode: spec_recovery_mode_of(r_rmode->Ok_0)->0,
                wal_dir: r_wal_dir->Ok_0,
                wal_ttl_seconds: r_ttl->Ok_0,
                wal_size_limit_mb: spec_wal_size_limit_mb(r_wsl->Ok_0),
                max_total_wal_size: r_mtws->Ok_0,
                max_background_compactions: r_mbc->Ok_0,
                max_background_flushes: r_mbf->Ok_0,
                base_background_compactions: r_bbc->Ok_0,
                max_manifest_file_size: r_mmfs->Ok_0,
                create_if_missing: r_cim->Ok_0,
                max_open_files: r_mof->Ok_0,
                enable_statistics: r_stats->Ok_0,
                stats_dump_period_sec: if r_stats->Ok_0 {
                    Some(r_period->Ok_0)
                } else {
                    None
                },
                compaction_readahead_size: r_readahead->Ok_0,
                info_log_max_size: r_logmax->Ok_0,
                info_log_roll_time_secs: spec_ms_to_secs(r_roll->Ok_0) as i64,
                info_log_dir: r_logdir->Ok_0,
                rate_bytes_per_sec: if r_rate->Ok_0 > 0 {
                    Some(r_rate->Ok_0)
                } else {
                    None
                },
                max_sub_compactions: r_msc->Ok_0,
                writable_file_max_buffer_size: r_wfmbs->Ok_0,
                use_direct_io_for_flush_and_compaction: r_dio->Ok_0,
            },
        )
    }
}

/// Milliseconds to whole seconds, truncating toward zero.
fn ms_to_secs(ms: i64) -> (r: i64)
    ensures
        r == spec_ms_to_secs(ms),
{
    if ms >= 0 {
        ((ms as u64) / 1000) as i64
    } else {
        let magnitude: u64 = if ms == i64::MIN {
            0x8000_0000_0000_0000u64
        } else {
            (-ms) as u64
        };
        let q = magnitude / 1000;
        -(q as i64)
    }
}

/// Translate the global engine options from the configuration, reading
/// each key under `rocksdb.` with its documented default.
pub fn get_rocksdb_db_option(config: &Config) -> (r: Result<DbOptions, ConfigError>)
    ensures
        match spec_db_options(config.entries@) {
            Ok(t) => r matches Ok(v) && v@ == t,
            Err(e) => r matches Err(err) && err@ == e,
        },
{
    let rmode = match get_toml_int(config, "rocksdb.wal-recovery-mode", Some(2)) {
        Ok(v) => v,
        Err(e) => return Err(e),
    };
    let wal_recovery_mode = match parse_rocksdb_wal_recovery_mode(rmode) {
        Some(m) => m,
        None => return Err(ConfigError::InvalidEnum("rocksdb.wal-recovery-mode".to_owned())),
    };
    let wal_dir = match get_toml_string(config, "rocksdb.wal-dir", Some(String::new())) {
        Ok(v) => v,
        Err(e) => return Err(e),
    };
    let wal_ttl_seconds = match get_toml_int(config, "rocksdb.wal-ttl-seconds", Some(0)) {
        Ok(v) => v,
        Err(e) => return Err(e),
    };
    let wal_size_limit = match get_toml_int(config, "rocksdb.wal-size-limit", Some(0)) {
        Ok(v) => v,
        Err(e) => return Err(e),
    };
    let wal_size_limit_mb = align_to_mb(#[verifier::truncate] (wal_size_limit as u64)) / MB;
    let max_total_wal_size = match get_toml_int(config, "rocksdb.max-total-wal-size", Some(
        0x100000000,
    )) {
        Ok(v) => v,
        Err(e) => return Err(e),
    };
    let max_background_compactions = match get_toml_int(
        config,
        "rocksdb.max-background-compactions",
        Some(6),
    ) {
        Ok(v) => v,
        Err(e) => return Err(e),
    };
    let max_background_flushes = match get_toml_int(config, "rocksdb.max-background-flushes", Some(
        2,
    )) {
        Ok(v) => v,
        Err(e) => return Err(e),
    };
    let base_background_compactions = match get_toml_int(
        config,
        "rocksdb.base-background-compactions",
        Some(1),
    ) {
        Ok(v) => v,
        Err(e) => return Err(e),
    };
    let max_manifest_file_size = match get_toml_int(config, "rocksdb.max-manifest-file-size", Some(
        0x1400000,
    )) {
        Ok(v) => v,
        Err(e) => return Err(e),
    };
    let create_if_missing = match get_toml_boolean(config, "rocksdb.create-if-missing", Some(
        true,
    )) {
        Ok(v) => v,
        Err(e) => return Err(e),
    };
    let max_open_files = match get_toml_int(config, "rocksdb.max-open-files", Some(40960)) {
        Ok(v) => v,
        Err(e) => return Err(e),
    };
    let enable_statistics = match get_toml_boolean(config, "rocksdb.enable-statistics", Some(
        true,
    )) {
        Ok(v) => v,
        Err(e) => return Err(e),
    };
    let stats_dump_period_sec: Option<i64> = if enable_statistics {
        let period = match get_toml_int(config, "rocksdb.stats-dump-period-sec", Some(600)) {
            Ok(v) => v,
            Err(e) => return Err(e),
        };
        Some(period)
    } else {
        None
    };
    let compaction_readahead_size = match get_toml_int(
        config,
        "rocksdb.compaction-readahead-size",
        Some(0),
    ) {
        Ok(v) => v,
        Err(e) => return Err(e),
    };
    let info_log_max_size = match get_toml_int(config, "rocksdb.info-log-max-size", Some(0)) {
        Ok(v) => v,
        Err(e) => return Err(e),
    };
    let roll_time_ms = match get_toml_int(config, "rocksdb.info-log-roll-time", Some(0)) {
        Ok(v) => v,
        Err(e) => return Err(e),
    };
    let info_log_roll_time_secs = ms_to_secs(roll_time_ms);
    let info_log_dir = match get_toml_string(config, "rocksdb.info-log-dir", Some(String::new())) {
        Ok(v) => v,
        Err(e) => return Err(e),
    };
    let rate = match get_toml_int(config, "rocksdb.rate-bytes-per-sec", Some(0)) {
        Ok(v) => v,
        Err(e) => return Err(e),
    };
    let rate_bytes_per_sec: Option<i64> = if rate > 0 {
        Some(rate)
    } else {
        None
    };
    let max_sub_compactions = match get_toml_int(config, "rocksdb.max-sub-compactions", Some(1)) {
        Ok(v) => v,
        Err(e) => return Err(e),
    };
    let writable_file_max_buffer_size = match get_toml_int(
        config,
        "rocksdb.writable-file-max-buffer-size",
        Some(0x100000),
    ) {
        Ok(v) => v,
        Err(e) => return Err(e),
    };
    let use_direct_io = match get_toml_boolean(
        config,
        "rocksdb.use-direct-io-for-flush-and-compaction",
        Some(false),
    ) {
        Ok(v) => v,
        Err(e) => return Err(e),
    };
    Ok(
        DbOptions {
            wal_recovery_mode,
            wal_dir,
            wal_ttl_seconds,
            wal_size_limit_mb,
            max_total_wal_size,
            max_background_compactions,
            max_background_flushes,
            base_background_compactions,
            max_manifest_file_size,
            create_if_missing,
            max_open_files,
            enable_statistics,
            stats_dump_period_sec,
            compaction_readahead_size,
            info_log_max_size,
            info_log_roll_time_secs,
            info_log_dir,
            rate_bytes_per_sec,
            max_sub_compactions,
            writable_file_max_buffer_size,
            use_direct_io_for_flush_and_compaction: use_direct_io,
        },
    )
}

} // verus!

