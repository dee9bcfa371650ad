//! Deterministic construction of proof-of-work-valid test blocks that carry
//! deliberately invalid sidechain commitments, and rendering of their
//! submission as a POSIX shell script.

pub mod text;
pub mod scenario;
pub mod chain;
pub mod outside;
pub mod encoding;
pub mod pow;
pub mod subsidy;
pub mod commitment;
pub mod engine;
pub mod generator;
pub mod posix_script_builder;
pub mod pipeline;
