/*!
 * A family of murmur3-based bloom filter variants:
 *      BloomFilter               -- a standard bloom filter.
 *      CountingBloomFilter       -- a bloom filter which supports deleting items, using counters
 *                                   instead of bits.
 *      ScopeDecayBloomFilter     -- a scope decay bloom filter, supporting gradual resetting of
 *                                   bits over time.
 *      GenerationalBloomFilter   -- use N generations of bloom filters to support a moving window
 *                                   of data.
 *      BigenerationalBloomFilter -- use 2 alternating generations of bloom filters to support a
 *                                   moving window of data.
 *      A2BufferingBloomFilter    -- use a segmented bloom filter, relying on the active-active
 *                                   buffering strategy to keep recent elements in the current
 *                                   segment.
 */
pub mod bloom;

pub use crate::bloom::A2BufferingBloomFilter;
pub use crate::bloom::BigenerationalBloomFilter;
pub use crate::bloom::BloomFilter;
pub use crate::bloom::CountingBloomFilter;
pub use crate::bloom::FilterError;
pub use crate::bloom::Generation;
pub use crate::bloom::GenerationValues;
pub use crate::bloom::GenerationalBloomFilter;
pub use crate::bloom::InvalidParam;
pub use crate::bloom::Rational;
pub use crate::bloom::ScopeDecayBloomFilter;

