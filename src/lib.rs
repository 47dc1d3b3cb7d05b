//! # fastcarve
//!
//! Forensic file carver: plans overlapping scan windows over an evidence
//! image, finds magic-byte signatures, validates and sizes each candidate
//! with a per-format handler, and emits carved byte ranges with metadata.

pub mod carve;
pub mod checkpoint;
pub mod chunk;
pub mod config;
pub mod digest;
pub mod error;
pub mod evidence;
pub mod fields;
pub mod gpu;
pub mod limiter;
pub mod metadata;
pub mod pipeline;
pub mod scanner;
