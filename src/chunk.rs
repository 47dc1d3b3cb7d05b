//! Chunk planning: splits an evidence stream into overlapping scan windows.
use vstd::prelude::*;
use vstd::arithmetic::div_mod::{lemma_fundamental_div_mod, lemma_fundamental_div_mod_converse};

verus! {

/// One scan window. `[start, start + valid_length)` is the part this chunk
/// owns; `[start + valid_length, start + length)` is the overlap it shares
/// with the next chunk.
#[derive(Debug, Clone, Copy, PartialEq, Eq, Structural)]
pub struct ScanChunk {
    pub id: u64,
    pub start: u64,
    pub length: u64,
    pub valid_length: u64,
}

pub open spec fn min_int(a: int, b: int) -> int {
    if a <= b { a } else { b }
}

/// The chunk that starts at `start` with number `id`.
pub open spec fn chunk_at(total: int, cs: int, ov: int, start: int, id: int) -> ScanChunk {
    ScanChunk {
        id: id as u64,
        start: start as u64,
        length: min_int(total - start, cs + ov) as u64,
        valid_length: min_int(total - start, cs) as u64,
    }
}

/// The chunks from `start` on: one every `cs` bytes until `total` is reached.
pub open spec fn plan_from(total: int, cs: int, ov: int, start: int, id: int) -> Seq<ScanChunk>
    decreases left(total, start),
{
    if cs <= 0 || start >= total {
        Seq::empty()
    } else {
        seq![chunk_at(total, cs, ov, start, id)] + plan_from(total, cs, ov, start + cs, id + 1)
    }
}

/// What is left to plan from `start` on.
pub open spec fn left(total: int, start: int) -> int {
    if start >= total { 0 } else { total - start }
}

/// The plan of a whole evidence stream of `total` bytes.
pub open spec fn chunk_plan(total: u64, cs: u64, ov: u64) -> Seq<ScanChunk> {
    plan_from(total as int, cs as int, ov as int, 0, 0)
}

/// Number of chunks that cover `rem` bytes: the rounded-up quotient.
pub open spec fn chunks_needed(rem: int, cs: int) -> int {
    if cs <= 0 || rem <= 0 {
        0
    } else {
        rem / cs + if rem % cs == 0 { 0int } else { 1int }
    }
}

/// Sum of the owned lengths of a sequence of chunks.
pub open spec fn sum_valid(s: Seq<ScanChunk>) -> int
    decreases s.len(),
{
    if s.len() == 0 {
        0
    } else {
        s[0].valid_length as int + sum_valid(s.drop_first())
    }
}

proof fn lemma_needed_step(rem: int, cs: int)
    requires
        cs > 0,
        rem > cs,
    ensures
        chunks_needed(rem, cs) == 1 + chunks_needed(rem - cs, cs),
{
    lemma_fundamental_div_mod(rem - cs, cs);
    let q = (rem - cs) / cs;
    let r = (rem - cs) % cs;
    assert(rem == (q + 1) * cs + r) by (nonlinear_arith)
        requires
            rem - cs == cs * q + r,
    ;
    lemma_fundamental_div_mod_converse(rem, cs, q + 1, r);
}

proof fn lemma_needed_small(rem: int, cs: int)
    requires
        cs > 0,
        0 < rem <= cs,
    ensures
        chunks_needed(rem, cs) == 1,
{
    if rem == cs {
        lemma_fundamental_div_mod_converse(rem, cs, 1, 0);
    } else {
        lemma_fundamental_div_mod_converse(rem, cs, 0, rem);
    }
}

/// The number of chunks from `start` on is the rounded-up quotient of what remains.
pub proof fn lemma_plan_len(total: int, cs: int, ov: int, start: int, id: int)
    ensures
        plan_from(total, cs, ov, start, id).len() == chunks_needed(total - start, cs),
    decreases left(total, start),
{
    if cs <= 0 || start >= total {
    } else {
        lemma_plan_len(total, cs, ov, start + cs, id + 1);
        if total - start > cs {
            lemma_needed_step(total - start, cs);
        } else {
            lemma_needed_small(total - start, cs);
        }
    }
}

/// The plan from `start` on, element by element.
proof fn lemma_plan_index(total: int, cs: int, ov: int, start: int, id: int, i: int)
    requires
        cs > 0,
        0 <= i < plan_from(total, cs, ov, start, id).len(),
    ensures
        plan_from(total, cs, ov, start, id)[i] == chunk_at(total, cs, ov, start + i * cs, id + i),
        start + i * cs < total,
    decreases left(total, start),
{
    if i > 0 {
        lemma_plan_index(total, cs, ov, start + cs, id + 1, i - 1);
        assert(start + cs + (i - 1) * cs == start + i * cs) by (nonlinear_arith);
    }
}

/// Owned lengths add up to the bytes that remain from `start`.
pub proof fn lemma_sum_valid_from(total: int, cs: int, ov: int, start: int, id: int)
    requires
        cs > 0,
        0 <= start,
        total <= u64::MAX,
    ensures
        sum_valid(plan_from(total, cs, ov, start, id)) == left(total, start),
    decreases left(total, start),
{
    if start < total {
        let p = plan_from(total, cs, ov, start, id);
        assert(p.drop_first() =~= plan_from(total, cs, ov, start + cs, id + 1));
        lemma_sum_valid_from(total, cs, ov, start + cs, id + 1);
    }
}

/// Owned windows tile the stream: the owned lengths of a plan add up to the
/// total length, and each chunk begins where the previous one's owned part ends.
pub proof fn lemma_plan_tiles(total: u64, cs: u64, ov: u64)
    requires
        cs > 0,
    ensures
        sum_valid(chunk_plan(total, cs, ov)) == total,
        forall|i: int|
            0 <= i < chunk_plan(total, cs, ov).len() - 1 ==> #[trigger] chunk_plan(total, cs, ov)[i
                + 1].start == chunk_plan(total, cs, ov)[i].start + chunk_plan(
                total,
                cs,
                ov,
            )[i].valid_length,
{
    lemma_sum_valid_from(total as int, cs as int, ov as int, 0, 0);
    let p = chunk_plan(total, cs, ov);
    assert forall|i: int| 0 <= i < p.len() - 1 implies #[trigger] p[i + 1].start == p[i].start
        + p[i].valid_length by {
        lemma_plan_index(total as int, cs as int, ov as int, 0, 0, i);
        lemma_plan_index(total as int, cs as int, ov as int, 0, 0, i + 1);
        assert((i + 1) * cs == i * cs + cs) by (nonlinear_arith);
    }
}

/// Planning depends on its three inputs alone: two plans made from the same
/// inputs are the same sequence.
pub proof fn lemma_plan_deterministic(
    total: u64,
    cs: u64,
    ov: u64,
    first: Seq<ScanChunk>,
    second: Seq<ScanChunk>,
)
    requires
        first == chunk_plan(total, cs, ov),
        second == chunk_plan(total, cs, ov),
    ensures
        first == second,
{
}

/// Overlap coverage: a pattern of `pat_len <= overlap + 1` bytes that starts at
/// any offset `o` inside the evidence and fits in it lies wholly inside the
/// window of the chunk that owns `o`, even when `o` is the last owned byte.
pub proof fn lemma_overlap_covers(total: u64, cs: u64, ov: u64, o: int, pat_len: int)
    requires
        cs > 0,
        0 <= o,
        1 <= pat_len <= ov + 1,
        o + pat_len <= total,
    ensures
        exists|i: int|
            0 <= i < chunk_plan(total, cs, ov).len() && #[trigger] chunk_plan(total, cs, ov)[i].start
                <= o < chunk_plan(total, cs, ov)[i].start + chunk_plan(total, cs, ov)[i].valid_length
                && o + pat_len <= chunk_plan(total, cs, ov)[i].start + chunk_plan(
                total,
                cs,
                ov,
            )[i].length,
{
    lemma_covers_from(total as int, cs as int, ov as int, 0, 0, o, pat_len);
    let p = plan_from(total as int, cs as int, ov as int, 0, 0);
    let i = choose|i: int|
        0 <= i < p.len() && #[trigger] p[i].start <= o < p[i].start + p[i].valid_length && o
            + pat_len <= p[i].start + p[i].length;
    assert(chunk_plan(total, cs, ov)[i].start <= o);
}

proof fn lemma_covers_from(total: int, cs: int, ov: int, start: int, id: int, o: int, pat_len: int)
    requires
        cs > 0,
        0 <= start <= o,
        ov >= 0,
        1 <= pat_len <= ov + 1,
        o + pat_len <= total,
        total <= u64::MAX,
    ensures
        exists|i: int|
            0 <= i < plan_from(total, cs, ov, start, id).len() && #[trigger] plan_from(
                total,
                cs,
                ov,
                start,
                id,
            )[i].start <= o < plan_from(total, cs, ov, start, id)[i].start + plan_from(
                total,
                cs,
                ov,
                start,
                id,
            )[i].valid_length && o + pat_len <= plan_from(total, cs, ov, start, id)[i].start
                + plan_from(total, cs, ov, start, id)[i].length,
    decreases left(total, start),
{
    let p = plan_from(total, cs, ov, start, id);
    if o < start + cs {
        assert(p[0] == chunk_at(total, cs, ov, start, id));
        assert(p[0].start <= o < p[0].start + p[0].valid_length && o + pat_len <= p[0].start
            + p[0].length);
    } else {
        lemma_covers_from(total, cs, ov, start + cs, id + 1, o, pat_len);
        let q = plan_from(total, cs, ov, start + cs, id + 1);
        let j = choose|j: int|
            0 <= j < q.len() && #[trigger] q[j].start <= o < q[j].start + q[j].valid_length && o
                + pat_len <= q[j].start + q[j].length;
        assert(p[j + 1] == q[j]);
    }
}

/// Number of chunks `build_chunks` makes for `total_len` bytes (no overlap needed).
pub fn chunk_count(total_len: u64, chunk_size: u64) -> (r: u64)
    ensures
        r == chunk_plan(total_len, chunk_size, 0).len(),
        r == chunks_needed(total_len as int, chunk_size as int),
{
    proof {
        lemma_plan_len(total_len as int, chunk_size as int, 0, 0, 0);
    }
    if chunk_size == 0 {
        return 0;
    }
    let whole = total_len / chunk_size;
    if total_len % chunk_size == 0 {
        whole
    } else {
        proof {
            lemma_fundamental_div_mod(total_len as int, chunk_size as int);
            assert(whole < total_len) by (nonlinear_arith)
                requires
                    total_len == chunk_size * whole + total_len % chunk_size,
                    total_len % chunk_size > 0,
                    chunk_size >= 1,
            ;
        }
        whole + 1
    }
}

/// Plans the scan windows over `total_len` bytes.
pub fn build_chunks(total_len: u64, chunk_size: u64, overlap: u64) -> (r: Vec<ScanChunk>)
    ensures
        r@ == chunk_plan(total_len, chunk_size, overlap),
{
    let mut chunks: Vec<ScanChunk> = Vec::new();
    if chunk_size == 0 {
        return chunks;
    }
    let mut start: u64 = 0;
    let mut id: u64 = 0;
    while start < total_len
        invariant
            chunk_size > 0,
            id <= start,
            start <= total_len + chunk_size,
            start < total_len ==> chunks@ + plan_from(
                total_len as int,
                chunk_size as int,
                overlap as int,
                start as int,
                id as int,
            ) == chunk_plan(total_len, chunk_size, overlap),
            start >= total_len ==> chunks@ == chunk_plan(total_len, chunk_size, overlap),
        decreases total_len + chunk_size - start,
    {
        let remaining = total_len - start;
        let length = if remaining < chunk_size.saturating_add(overlap) {
            remaining
        } else {
            chunk_size.saturating_add(overlap)
        };
        let valid_length = if remaining < chunk_size {
            remaining
        } else {
            chunk_size
        };
        let ghost before = chunks@;
        chunks.push(ScanChunk { id, start, length, valid_length });
        let ghost next_start = start + chunk_size;
        proof {
            let rest = plan_from(
                total_len as int,
                chunk_size as int,
                overlap as int,
                next_start,
                id + 1,
            );
            assert(chunks@ + rest =~= before + plan_from(
                total_len as int,
                chunk_size as int,
                overlap as int,
                start as int,
                id as int,
            ));
            if next_start >= total_len {
                assert(chunks@ =~= chunks@ + rest);
            }
        }
        start = start.saturating_add(chunk_size);
        id = id + 1;
    }
    chunks
}

/// A lazy walk over the same plan that `build_chunks` produces.
#[derive(Debug, Clone)]
pub struct ChunkIter {
    total_len: u64,
    chunk_size: u64,
    overlap: u64,
    next_start: u64,
    next_id: u64,
}

impl ChunkIter {
    /// The chunks that are still to come.
    pub closed spec fn remaining(&self) -> Seq<ScanChunk> {
        plan_from(
            self.total_len as int,
            self.chunk_size as int,
            self.overlap as int,
            self.next_start as int,
            self.next_id as int,
        )
    }

    pub closed spec fn wf(&self) -> bool {
        self.next_id <= self.next_start
    }

    pub fn new(total_len: u64, chunk_size: u64, overlap: u64) -> (r: Self)
        ensures
            r.wf(),
            r.remaining() == chunk_plan(total_len, chunk_size, overlap),
    {
        ChunkIter { total_len, chunk_size, overlap, next_start: 0, next_id: 0 }
    }

    /// Yields the next chunk of the plan, or `None` once it is exhausted.
    pub fn next(&mut self) -> (r: Option<ScanChunk>)
        requires
            old(self).wf(),
        ensures
            final(self).wf(),
            old(self).remaining().len() == 0 ==> r is None && final(self).remaining().len() == 0,
            old(self).remaining().len() > 0 ==> r == Some(old(self).remaining()[0])
                && final(self).remaining() == old(self).remaining().drop_first(),
    {
        if self.chunk_size == 0 || self.next_start >= self.total_len {
            return None;
        }
        let remaining = self.total_len - self.next_start;
        let length = if remaining < self.chunk_size.saturating_add(self.overlap) {
            remaining
        } else {
            self.chunk_size.saturating_add(self.overlap)
        };
        let valid_length = if remaining < self.chunk_size {
            remaining
        } else {
            self.chunk_size
        };
        let chunk = ScanChunk { id: self.next_id, start: self.next_start, length, valid_length };
        let ghost old_rest = self.remaining();
        let ghost next_start = self.next_start + self.chunk_size;
        self.next_start = self.next_start.saturating_add(self.chunk_size);
        self.next_id = self.next_id + 1;
        proof {
            assert(old_rest.drop_first() =~= plan_from(
                self.total_len as int,
                self.chunk_size as int,
                self.overlap as int,
                next_start,
                self.next_id as int,
            ));
        }
        Some(chunk)
    }
}

} // verus!
