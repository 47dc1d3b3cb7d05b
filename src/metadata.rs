//! Metadata output formats.
use vstd::prelude::*;

verus! {

/// Where carved-file records are written.
#[derive(Debug, Clone, Copy, PartialEq, Eq, Structural)]
pub enum MetadataBackend {
    Jsonl,
    Csv,
    Parquet,
}

} // verus!
