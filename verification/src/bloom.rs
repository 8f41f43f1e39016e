/*!
 * Collates the various bloom filter types into a single Rust module.
 */
pub use self::a2buffering_bloom_filter::A2BufferingBloomFilter;
pub use self::bigenerational_bloom_filter::BigenerationalBloomFilter;
pub use self::bloom_filter::BloomFilter;
pub use self::counting_bloom_filter::CountingBloomFilter;
pub use self::generational_bloom_filter::GenerationalBloomFilter;
pub use self::generations::Generation;
pub use self::generations::GenerationValues;
pub use self::params::FilterError;
pub use self::params::InvalidParam;
pub use self::params::Rational;
pub use self::scope_decay_bloom_filter::ScopeDecayBloomFilter;

pub mod a2buffering_bloom_filter;
pub mod bigenerational_bloom_filter;
pub mod bit_array;
pub mod bloom_filter;
pub mod counting_bloom_filter;
pub mod generational_bloom_filter;
pub mod generations;
pub mod hashing;
pub mod params;
pub mod scope_decay_bloom_filter;
