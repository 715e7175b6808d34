//! Configuration translation and write-workload orchestration for a
//! multi-column-family LSM storage engine.
//!
//! The crate turns a human-editable configuration into per-column-family
//! tuning options, plans how an engine instance is opened or reconciled
//! against the configured column-family set, and drives batched writes
//! from pluggable key/value generators.

pub mod bench;
pub mod bootstrap;
pub mod cf;
pub mod check;
pub mod config;
pub mod key;
pub mod options;
pub mod transform;
pub mod units;
pub mod val;

use vstd::prelude::*;

verus! {

/// A fresh buffer of `len` random bytes.
pub fn gen_rand_str(len: usize) -> (r: Vec<u8>)
    ensures
        r@.len() == len,
{
    let mut buf = crate::key::zeroed(len);
    crate::key::fill_with_entropy(&mut buf);
    buf
}

/// Length of a raft-log key prefix: a two-byte local marker, a
/// big-endian region id, and one suffix byte.
pub fn region_raft_prefix_len() -> (n: usize)
    ensures
        n == 11,
{
    let marker: usize = 2;
    let region_id: usize = 8;
    let suffix: usize = 1;
    marker + region_id + suffix
}

} // verus!
