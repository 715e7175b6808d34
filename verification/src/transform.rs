//! Key prefix transforms: how the engine derives a lookup prefix from a
//! key.
//!
//! The write family trims a fixed-length timestamp suffix, the raft
//! family keeps a fixed-length region-log prefix, and the lock family
//! uses each whole key as its own prefix.  Registering a transform with
//! the engine happens outside the library; the transforms themselves
//! are pure slice functions.

use vstd::prelude::*;
use vstd::slice::slice_subrange;

verus! {

/// Drops a fixed-length suffix (a trailing timestamp) from each key.
#[derive(Debug, Clone, Copy, PartialEq, Eq, Structural)]
pub struct FixedSuffixSliceTransform {
    pub suffix_len: usize,
}

impl FixedSuffixSliceTransform {
    /// A transform dropping the last `suffix_len` bytes.
    pub fn new(suffix_len: usize) -> (r: FixedSuffixSliceTransform)
        ensures
            r.suffix_len == suffix_len,
    {
        FixedSuffixSliceTransform { suffix_len }
    }

    /// The key without its suffix.
    pub fn transform<'a>(&self, key: &'a [u8]) -> (r: &'a [u8])
        requires
            key@.len() >= self.suffix_len,
        ensures
            r@ == key@.take(key@.len() - self.suffix_len),
    {
        let mid = key.len() - self.suffix_len;
        slice_subrange(key, 0, mid)
    }

    /// Whether a key is long enough to carry the suffix.
    pub fn in_domain(&self, key: &[u8]) -> (r: bool)
        ensures
            r == (key@.len() >= self.suffix_len),
    {
        key.len() >= self.suffix_len
    }

    /// Every prefix is in range.
    pub fn in_range(&self, _key: &[u8]) -> (r: bool)
        ensures
            r,
    {
        true
    }
}

/// Keeps a fixed-length prefix (a region-log prefix) of each key.
#[derive(Debug, Clone, Copy, PartialEq, Eq, Structural)]
pub struct FixedPrefixSliceTransform {
    pub prefix_len: usize,
}

impl FixedPrefixSliceTransform {
    /// A transform keeping the first `prefix_len` bytes.
    pub fn new(prefix_len: usize) -> (r: FixedPrefixSliceTransform)
        ensures
            r.prefix_len == prefix_len,
    {
        FixedPrefixSliceTransform { prefix_len }
    }

    /// The key's fixed-length prefix.
    pub fn transform<'a>(&self, key: &'a [u8]) -> (r: &'a [u8])
        requires
            key@.len() >= self.prefix_len,
        ensures
            r@ == key@.take(self.prefix_len as int),
    {
        slice_subrange(key, 0, self.prefix_len)
    }

    /// Whether a key is long enough to carry the prefix.
    pub fn in_domain(&self, key: &[u8]) -> (r: bool)
        ensures
            r == (key@.len() >= self.prefix_len),
    {
        key.len() >= self.prefix_len
    }

    /// Every prefix is in range.
    pub fn in_range(&self, _key: &[u8]) -> (r: bool)
        ensures
            r,
    {
        true
    }
}

/// Uses each whole key as its own prefix.
#[derive(Debug, Clone, Copy, PartialEq, Eq, Structural)]
pub struct NoopSliceTransform;

impl NoopSliceTransform {
    /// The key itself.
    pub fn transform<'a>(&self, key: &'a [u8]) -> (r: &'a [u8])
        ensures
            r@ == key@,
    {
        key
    }

    /// Every key is in the domain.
    pub fn in_domain(&self, _key: &[u8]) -> (r: bool)
        ensures
            r,
    {
        true
    }

    /// Every prefix is in range.
    pub fn in_range(&self, _key: &[u8]) -> (r: bool)
        ensures
            r,
    {
        true
    }
}

} // verus!
