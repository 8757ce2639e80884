//! Strategies for finding the most frequent value in an integer sequence
//! owned by a foreign host runtime.
//!
//! The counting logic and every decision each strategy makes are verified
//! here over plain values; the boundary calls into the host runtime are made
//! by an unverified shell that feeds their outcomes back in as events.

pub mod buffer;
pub mod counter;
pub mod errors;
pub mod extracted_key;
pub mod laws;
pub mod object_counting;
pub mod wrapped_key;
