//! Searches for autograms: sentences that correctly describe their own
//! character-frequency counts. The library holds the count model, the
//! sentence rendering and number-word lexicon, the fixed-point and cycle
//! search engine, the per-worker state machine of the parallel race, and
//! the validator for externally supplied sentences.

pub mod text;
pub mod words;
pub mod counting;
pub mod engine;
pub mod cycle;
pub mod parallel;
pub mod validate;
mod rng;
