//! Configuration of the memory service.

use vstd::prelude::*;

verus! {

/// Which embedding cache the service keeps: a simple one, or a least-recently-used one with
/// its settings `C`.
#[derive(Debug, Clone)]
pub enum CacheConfigType<C> {
    Simple,
    Lru(C),
}

impl<C> CacheConfigType<C> {
    /// Whether the cache evicts the least recently used entries.
    pub fn is_lru(&self) -> (r: bool)
        ensures
            r == (self is Lru),
    {
        match self {
            CacheConfigType::Simple => false,
            CacheConfigType::Lru(_) => true,
        }
    }
}

} // verus!
