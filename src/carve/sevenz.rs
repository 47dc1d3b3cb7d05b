//! 7z archives: the 32-byte signature header locates the next header;
//! the archive ends where that header ends.
use vstd::prelude::*;

use crate::carve::{
    carve_declared, declared_size, declared_truncated, describes, stamped, Carved, CarveError,
    ExtractionContext, texts, declared_errors
};
use crate::evidence::window;
use crate::fields::{le_u64, read_u64_le};
use crate::scanner::{matches_at, matches_here, NormalizedHit};

verus! {

pub const SEVENZ_HEADER_LEN: u64 = 32;

pub open spec fn sevenz_magic() -> Seq<u8> {
    seq![0x37u8, 0x7A, 0xBC, 0xAF, 0x27, 0x1C]
}

/// The archive size that the signature header at the start of `h`
/// declares: 32 plus the next-header offset plus its size.
pub open spec fn sevenz_declared(h: Seq<u8>) -> Option<int> {
    if h.len() < 32 || !matches_at(h, sevenz_magic(), 0) {
        None
    } else {
        let total = 32 + le_u64(h, 12) + le_u64(h, 20);
        if le_u64(h, 20) == 0 || total > u64::MAX {
            None
        } else {
            Some(total)
        }
    }
}

/// Validates a 7z signature header and returns the archive size it declares.
pub fn sevenz_declared_size(header: &[u8]) -> (r: Option<u64>)
    ensures
        match sevenz_declared(header@) {
            None => r is None,
            Some(v) => r == Some(v as u64),
        },
{
    if header.len() < 32 {
        return None;
    }
    let magic: Vec<u8> = vec![0x37, 0x7A, 0xBC, 0xAF, 0x27, 0x1C];
    assert(magic@ =~= sevenz_magic());
    if !matches_here(header, magic.as_slice(), 0) {
        return None;
    }
    let offset = read_u64_le(header, 12);
    let size = read_u64_le(header, 20);
    if size == 0 {
        return None;
    }
    match offset.checked_add(size) {
        None => None,
        Some(s) => s.checked_add(SEVENZ_HEADER_LEN),
    }
}

pub struct SevenZipCarveHandler {
    extension: String,
    min_size: u64,
    max_size: u64,
}

impl SevenZipCarveHandler {
    pub closed spec fn spec_extension(&self) -> Seq<char> {
        self.extension@
    }

    pub closed spec fn spec_min_size(&self) -> u64 {
        self.min_size
    }

    pub closed spec fn spec_max_size(&self) -> u64 {
        self.max_size
    }

    pub fn new(extension: String, min_size: u64, max_size: u64) -> (r: Self)
        ensures
            r.spec_extension() == extension@,
            r.spec_min_size() == min_size,
            r.spec_max_size() == max_size,
    {
        SevenZipCarveHandler { extension, min_size, max_size }
    }

    pub fn file_type(&self) -> (r: &'static str)
        ensures
            r@ == "7z"@,
    {
        "7z"
    }

    pub fn extension(&self) -> (r: &str)
        ensures
            r@ == self.spec_extension(),
    {
        self.extension.as_str()
    }

    /// What `process_hit` returns for `hit` in `ctx`.
    pub open spec fn outcome(
        &self,
        hit: &NormalizedHit,
        ctx: &ExtractionContext,
        r: Result<Option<Carved>, CarveError>,
    ) -> bool {
        let ev = ctx.evidence.bytes();
        let len = ev.len() as int;
        let start = hit.global_offset as int;
        let d = sevenz_declared(window(ev, start, 32));
        let max = self.spec_max_size() as int;
        &&& r is Ok
        &&& r->Ok_0 is None <==> (d is None || declared_size(len, start, d->Some_0, max)
            < self.spec_min_size())
        &&& r->Ok_0 matches Some(c) ==> {
            &&& describes(c, ev)
            &&& stamped(c, ctx.run_id@, *hit, "7z"@, self.spec_extension())
            &&& c.record.size == declared_size(len, start, d->Some_0, max)
            &&& c.record.truncated == declared_truncated(len, start, d->Some_0, max)
            &&& c.record.validated == !c.record.truncated
            &&& texts(c.record.errors@) == declared_errors(len, start, d->Some_0, max, "max_size reached before 7z end"@, "eof before 7z end"@)
        }
    }

    /// Carves the archive at the hit to its declared size, cut at
    /// `max_size` and at the evidence end.
    pub fn process_hit(&self, hit: &NormalizedHit, ctx: &ExtractionContext) -> (r: Result<
        Option<Carved>,
        CarveError,
    >)
        ensures
            self.outcome(hit, ctx, r),
    {
        let header = ctx.evidence.read_at(hit.global_offset, SEVENZ_HEADER_LEN);
        match sevenz_declared_size(header.as_slice()) {
            None => Ok(None),
            Some(size) => Ok(
                carve_declared(
                    ctx,
                    hit,
                    "7z",
                    self.extension.as_str(),
                    size,
                    self.min_size,
                    self.max_size,
                    "max_size reached before 7z end",
                    "eof before 7z end",
                ),
            ),
        }
    }
}

} // verus!
