//! Address-scoring engine for a vanity contract-address search.
//!
//! A 20-byte candidate address is unpacked into its 40 nibbles, scanned for
//! runs and fixed patterns, and scored by one of a closed set of historical
//! scoring policies. Every scoring function is a pure function of the input
//! bytes and the selected policy.

pub mod nibbles;
pub mod scanner;
pub mod scorer;

pub use nibbles::{decode_nibbles, ScoreError, ADDRESS_BYTES, NIBBLE_COUNT};
pub use scorer::{score, score_address, score_gate_address, Policy, ScoreBreakdownZeros};
