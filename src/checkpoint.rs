//! Checkpoint state: where a run may resume scanning.
use vstd::prelude::*;
use vstd::string::*;

use crate::chunk::ScanChunk;

verus! {

/// Format version written into new checkpoints.
pub const CHECKPOINT_VERSION: u32 = 1;

#[derive(Debug, Clone)]
pub struct CheckpointState {
    pub version: u32,
    pub run_id: String,
    pub chunk_size: u64,
    pub overlap: u64,
    /// Chunks that start before this offset are done.
    pub next_offset: u64,
    pub evidence_len: u64,
    /// Creation time, RFC 3339, UTC.
    pub created_at: String,
}

/// Relies on chrono::Utc::now, rendered with DateTime::to_rfc3339: the
/// current UTC time as RFC 3339 text.
#[verifier::external_body]
fn utc_now_rfc3339() -> (r: String) {
    chrono::Utc::now().to_rfc3339()
}

impl CheckpointState {
    /// A checkpoint of the current format, stamped with the current time.
    pub fn new(run_id: &str, chunk_size: u64, overlap: u64, next_offset: u64, evidence_len: u64) -> (r:
        Self)
        ensures
            r.version == CHECKPOINT_VERSION,
            r.run_id@ == run_id@,
            r.chunk_size == chunk_size,
            r.overlap == overlap,
            r.next_offset == next_offset,
            r.evidence_len == evidence_len,
    {
        CheckpointState {
            version: CHECKPOINT_VERSION,
            run_id: String::from_str(run_id),
            chunk_size,
            overlap,
            next_offset,
            evidence_len,
            created_at: utc_now_rfc3339(),
        }
    }

    /// The checkpoint was taken over the same evidence length and chunking.
    pub fn matches_run(&self, evidence_len: u64, chunk_size: u64, overlap: u64) -> (r: bool)
        ensures
            r == (self.evidence_len == evidence_len && self.chunk_size == chunk_size
                && self.overlap == overlap),
    {
        self.evidence_len == evidence_len && self.chunk_size == chunk_size && self.overlap == overlap
    }
}

/// Where scanning resumes: the checkpoint's next offset when it matches the
/// current evidence length and chunking, else the beginning.
pub fn resume_offset(
    checkpoint: Option<&CheckpointState>,
    evidence_len: u64,
    chunk_size: u64,
    overlap: u64,
) -> (r: u64)
    ensures
        r == match checkpoint {
            Some(c) => if c.evidence_len == evidence_len && c.chunk_size == chunk_size
                && c.overlap == overlap {
                c.next_offset
            } else {
                0
            },
            None => 0,
        },
{
    match checkpoint {
        Some(c) => if c.matches_run(evidence_len, chunk_size, overlap) {
            c.next_offset
        } else {
            0
        },
        None => 0,
    }
}

/// Chunks that start before the resume offset were scanned in the earlier run.
pub fn already_scanned(chunk: &ScanChunk, resume_from: u64) -> (r: bool)
    ensures
        r == (chunk.start < resume_from),
{
    chunk.start < resume_from
}

} // verus!
