//! RAR (version 1.5 to 4 layout): a 7-byte marker, then blocks whose
//! headers give their sizes, up to the end-of-archive block.
use vstd::prelude::*;
use vstd::string::*;

use crate::carve::footer::search_limit;
use crate::carve::{describes, finish_record, stamped, Carved, CarveError, ExtractionContext, texts, errors_if};
use crate::evidence::window;
use crate::fields::{le_u16, le_u32, read_u16_le, read_u32_le};
use crate::scanner::{matches_at, matches_here, NormalizedHit};

verus! {

/// "Rar!" 1A 07 00
pub open spec fn rar_marker() -> Seq<u8> {
    seq![0x52u8, 0x61, 0x72, 0x21, 0x1A, 0x07, 0x00]
}

/// Block type of the end-of-archive block.
pub const RAR_END_BLOCK: u8 = 0x7B;

/// Block type of the archive header, which follows the marker.
pub const RAR_ARCHIVE_HEADER: u8 = 0x73;

/// Size of the block whose header starts at `p`, if the header is readable and sane.
pub open spec fn rar_block_size(d: Seq<u8>, p: int) -> Option<int> {
    if p < 0 || p + 7 > d.len() {
        None
    } else {
        let long = le_u16(d, p + 3) >= 0x8000;
        let hs = le_u16(d, p + 5);
        if hs < 7 || (long && p + 11 > d.len()) {
            None
        } else if long {
            Some(hs + le_u32(d, p + 7))
        } else {
            Some(hs)
        }
    }
}

/// Walks blocks from `p`: where the walk ends, and whether it ended on the
/// end-of-archive block.
pub open spec fn rar_walk(d: Seq<u8>, p: int) -> (int, bool)
    decreases if p < d.len() { d.len() - p } else { 0 },
{
    if p < 0 || p >= d.len() {
        (p, false)
    } else {
        match rar_block_size(d, p) {
            None => (p, false),
            Some(s) => if p + 2 < d.len() && d[p + 2] == 0x7B {
                (p + s, true)
            } else {
                rar_walk(d, p + s)
            },
        }
    }
}

/// The candidate starts with the marker and the archive header.
pub open spec fn rar_start(d: Seq<u8>) -> bool {
    d.len() >= 14 && matches_at(d, rar_marker(), 0) && d[9] == 0x73
}

fn block_size_at(d: &[u8], p: usize) -> (r: Option<u64>)
    ensures
        match rar_block_size(d@, p as int) {
            None => r is None,
            Some(s) => r == Some(s as u64) && 7 <= s <= 0xFFFF + 0xFFFF_FFFF,
        },
{
    let n = d.len();
    if p >= n || n - p < 7 {
        return None;
    }
    let long = read_u16_le(d, p + 3) >= 0x8000;
    let hs = read_u16_le(d, p + 5) as u64;
    if hs < 7 || (long && n - p < 11) {
        return None;
    }
    if long {
        Some(hs + read_u32_le(d, p + 7) as u64)
    } else {
        Some(hs)
    }
}

pub struct RarCarveHandler {
    extension: String,
    min_size: u64,
    max_size: u64,
}

impl RarCarveHandler {
    pub closed spec fn spec_extension(&self) -> Seq<char> {
        self.extension@
    }

    pub closed spec fn spec_min_size(&self) -> u64 {
        self.min_size
    }

    pub closed spec fn spec_max_size(&self) -> u64 {
        self.max_size
    }

    pub fn new(extension: String, min_size: u64, max_size: u64) -> (r: Self)
        ensures
            r.spec_extension() == extension@,
            r.spec_min_size() == min_size,
            r.spec_max_size() == max_size,
    {
        RarCarveHandler { extension, min_size, max_size }
    }

    pub fn file_type(&self) -> (r: &'static str)
        ensures
            r@ == "rar"@,
    {
        "rar"
    }

    pub fn extension(&self) -> (r: &str)
        ensures
            r@ == self.spec_extension(),
    {
        self.extension.as_str()
    }

    /// What `process_hit` returns for `hit` in `ctx`.
    pub open spec fn outcome(
        &self,
        hit: &NormalizedHit,
        ctx: &ExtractionContext,
        r: Result<Option<Carved>, CarveError>,
    ) -> bool {
        let ev = ctx.evidence.bytes();
        let start = hit.global_offset as int;
        let data = window(
            ev,
            start,
            search_limit(ev.len() as int, start, self.spec_max_size() as int),
        );
        let w = rar_walk(data, 7);
        let size = if w.0 < data.len() { w.0 } else { data.len() as int };
        let complete = w.1 && w.0 <= data.len();
        &&& r is Ok
        &&& r->Ok_0 is None <==> (!rar_start(data) || size < self.spec_min_size())
        &&& r->Ok_0 matches Some(c) ==> {
            &&& describes(c, ev)
            &&& stamped(c, ctx.run_id@, *hit, "rar"@, self.spec_extension())
            &&& c.record.size == size
            &&& c.record.truncated == !complete
            &&& c.record.validated == complete
            &&& texts(c.record.errors@) == errors_if(!complete, "end-of-archive block not reached"@)
        }
    }

    /// Carves the archive at the hit through its end-of-archive block.
    /// Without one inside what could be scanned, the blocks walked are
    /// emitted as truncated. A hit without marker and archive header, or a
    /// file under `min_size`, gives no file.
    pub fn process_hit(&self, hit: &NormalizedHit, ctx: &ExtractionContext) -> (r: Result<
        Option<Carved>,
        CarveError,
    >)
        ensures
            self.outcome(hit, ctx, r),
    {
        let len = ctx.evidence.len();
        let start = hit.global_offset;
        let room = if start < len {
            len - start
        } else {
            0
        };
        let limit = if self.max_size > 0 && self.max_size < room {
            self.max_size
        } else {
            room
        };
        let data = ctx.evidence.read_at(start, limit);
        let n = data.len();
        let marker: Vec<u8> = vec![0x52, 0x61, 0x72, 0x21, 0x1A, 0x07, 0x00];
        assert(marker@ =~= rar_marker());
        if n < 14 || !matches_here(data.as_slice(), marker.as_slice(), 0)
            || data[9] != RAR_ARCHIVE_HEADER {
            return Ok(None);
        }
        let mut pos: u128 = 7;
        let mut found = false;
        while pos < n as u128
            invariant_except_break
                !found,
                rar_walk(data@, pos as int) == rar_walk(data@, 7),
            invariant
                n == data@.len(),
                n <= usize::MAX,
                pos <= n + 0x1_0001_0000,
            ensures
                rar_walk(data@, 7) == (pos as int, found),
            decreases n + 0x1_0001_0000 - pos,
        {
            match block_size_at(data.as_slice(), pos as usize) {
                None => break,
                Some(s) => {
                    let p = pos as usize;
                    if p + 2 < n && data[p + 2] == RAR_END_BLOCK {
                        pos = pos + s as u128;
                        found = true;
                        break;
                    }
                    pos = pos + s as u128;
                },
            }
        }
        let complete = found && pos <= n as u128;
        let size: usize = if pos < n as u128 {
            pos as usize
        } else {
            n
        };
        if (size as u64) < self.min_size {
            return Ok(None);
        }
        let mut out: Vec<u8> = Vec::new();
        let mut i: usize = 0;
        while i < size
            invariant
                size <= data@.len(),
                i <= size,
                out@ == data@.subrange(0, i as int),
            decreases size - i,
        {
            out.push(data[i]);
            i = i + 1;
            assert(out@ =~= data@.subrange(0, i as int));
        }
        let mut errors: Vec<String> = Vec::new();
        if !complete {
            errors.push(String::from_str("end-of-archive block not reached"));
        }
        assert(texts(errors@) =~= errors_if(!complete, "end-of-archive block not reached"@));
        assert(out@ =~= window(ctx.evidence.bytes(), start as int, size as int));
        Ok(
            Some(
                finish_record(
                    ctx,
                    hit,
                    "rar",
                    self.extension.as_str(),
                    out,
                    !complete,
                    complete,
                    errors,
                ),
            ),
        )
    }
}

} // verus!
