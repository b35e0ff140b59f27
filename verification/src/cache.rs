//! The KV-cache interface of the inference backend and its two present implementations,
//! both of which always miss.

use std::path::PathBuf;
use vstd::prelude::*;

verus! {

#[derive(Debug, Clone)]
pub struct CachedPrefix {
    pub blocks: Vec<u8>,
    pub token_count: usize,
}

pub trait KvCache {
    fn lookup(&self, prefix_hash: u64) -> Option<CachedPrefix>;

    fn store(&self, prefix_hash: u64, blocks: CachedPrefix);
}

pub struct NoopCache;

impl KvCache for NoopCache {
    fn lookup(&self, _hash: u64) -> (r: Option<CachedPrefix>)
        ensures
            r is None,
    {
        None
    }

    fn store(&self, _hash: u64, _blocks: CachedPrefix) {
    }
}

/// Q4 KV Cache using safetensors block pool.
/// Currently returns cache miss.
pub struct SafetensorsCache {
    cache_dir: PathBuf,
    max_blocks: usize,
    total_budget_mb: usize,
}

impl SafetensorsCache {
    pub closed spec fn config(&self) -> (PathBuf, usize, usize) {
        (self.cache_dir, self.max_blocks, self.total_budget_mb)
    }

    pub fn new(cache_dir: PathBuf, max_blocks: usize, total_budget_mb: usize) -> (c: Self)
        ensures
            c.config() == (cache_dir, max_blocks, total_budget_mb),
    {
        SafetensorsCache { cache_dir, max_blocks, total_budget_mb }
    }
}

impl KvCache for SafetensorsCache {
    fn lookup(&self, _prefix_hash: u64) -> (r: Option<CachedPrefix>)
        ensures
            r is None,
    {
        None
    }

    fn store(&self, _prefix_hash: u64, _blocks: CachedPrefix) {
    }
}

} // verus!
