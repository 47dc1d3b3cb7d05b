//! SQLite databases: the 100-byte header gives the page size and the page
//! count; the file is their product.
use vstd::prelude::*;

use crate::carve::{
    carve_declared, declared_size, declared_truncated, describes, stamped, Carved, CarveError,
    ExtractionContext, texts, declared_errors
};
use crate::evidence::window;
use crate::fields::{be_u16, be_u32, read_u16_be, read_u32_be};
use crate::scanner::{matches_at, matches_here, NormalizedHit};

verus! {

/// "SQLite format 3" and a NUL.
pub open spec fn sqlite_magic() -> Seq<u8> {
    seq![0x53u8, 0x51, 0x4C, 0x69, 0x74, 0x65, 0x20, 0x66, 0x6F, 0x72, 0x6D, 0x61, 0x74, 0x20, 0x33, 0x00]
}

/// Page size from its header field; 1 stands for 65536.
pub open spec fn sqlite_page_size(raw: int) -> int {
    if raw == 1 { 65536 } else { raw }
}

pub open spec fn valid_page_size(p: int) -> bool {
    p == 512 || p == 1024 || p == 2048 || p == 4096 || p == 8192 || p == 16384 || p == 32768
        || p == 65536
}

/// The database size that the header at the start of `h` declares, if it is one.
pub open spec fn sqlite_declared(h: Seq<u8>) -> Option<int> {
    if h.len() < 100 || !matches_at(h, sqlite_magic(), 0) {
        None
    } else {
        let ps = sqlite_page_size(be_u16(h, 16));
        let pages = be_u32(h, 28);
        if !valid_page_size(ps) || pages == 0 {
            None
        } else {
            Some(ps * pages)
        }
    }
}

/// Validates a SQLite header and returns the database size it declares.
pub fn sqlite_declared_size(header: &[u8]) -> (r: Option<u64>)
    ensures
        match sqlite_declared(header@) {
            None => r is None,
            Some(v) => r == Some(v as u64),
        },
{
    if header.len() < 100 {
        return None;
    }
    let magic: Vec<u8> = vec![
        0x53, 0x51, 0x4C, 0x69, 0x74, 0x65, 0x20, 0x66, 0x6F, 0x72, 0x6D, 0x61, 0x74, 0x20, 0x33,
        0x00,
    ];
    assert(magic@ =~= sqlite_magic());
    if !matches_here(header, magic.as_slice(), 0) {
        return None;
    }
    let raw = read_u16_be(header, 16) as u64;
    let ps: u64 = if raw == 1 {
        65536
    } else {
        raw
    };
    if !(ps == 512 || ps == 1024 || ps == 2048 || ps == 4096 || ps == 8192 || ps == 16384 || ps
        == 32768 || ps == 65536) {
        return None;
    }
    let pages = read_u32_be(header, 28) as u64;
    if pages == 0 {
        return None;
    }
    assert(ps * pages <= 65536 * 0xFFFF_FFFF) by (nonlinear_arith)
        requires
            ps <= 65536,
            pages <= 0xFFFF_FFFF,
    ;
    Some(ps * pages)
}

pub struct SqliteCarveHandler {
    extension: String,
    min_size: u64,
    max_size: u64,
}

impl SqliteCarveHandler {
    pub closed spec fn spec_extension(&self) -> Seq<char> {
        self.extension@
    }

    pub closed spec fn spec_min_size(&self) -> u64 {
        self.min_size
    }

    pub closed spec fn spec_max_size(&self) -> u64 {
        self.max_size
    }

    pub fn new(extension: String, min_size: u64, max_size: u64) -> (r: Self)
        ensures
            r.spec_extension() == extension@,
            r.spec_min_size() == min_size,
            r.spec_max_size() == max_size,
    {
        SqliteCarveHandler { extension, min_size, max_size }
    }

    pub fn file_type(&self) -> (r: &'static str)
        ensures
            r@ == "sqlite"@,
    {
        "sqlite"
    }

    pub fn extension(&self) -> (r: &str)
        ensures
            r@ == self.spec_extension(),
    {
        self.extension.as_str()
    }

    /// What `process_hit` returns for `hit` in `ctx`.
    pub open spec fn outcome(
        &self,
        hit: &NormalizedHit,
        ctx: &ExtractionContext,
        r: Result<Option<Carved>, CarveError>,
    ) -> bool {
        let ev = ctx.evidence.bytes();
        let len = ev.len() as int;
        let start = hit.global_offset as int;
        let d = sqlite_declared(window(ev, start, 100));
        let max = self.spec_max_size() as int;
        &&& r is Ok
        &&& r->Ok_0 is None <==> (d is None || declared_size(len, start, d->Some_0, max)
            < self.spec_min_size())
        &&& r->Ok_0 matches Some(c) ==> {
            &&& describes(c, ev)
            &&& stamped(c, ctx.run_id@, *hit, "sqlite"@, self.spec_extension())
            &&& c.record.size == declared_size(len, start, d->Some_0, max)
            &&& c.record.truncated == declared_truncated(len, start, d->Some_0, max)
            &&& c.record.validated == !c.record.truncated
            &&& texts(c.record.errors@) == declared_errors(len, start, d->Some_0, max, "max_size reached before SQLite end"@, "eof before SQLite end"@)
        }
    }

    /// Carves the database at the hit to page size times page count, cut at
    /// `max_size` and at the evidence end.
    pub fn process_hit(&self, hit: &NormalizedHit, ctx: &ExtractionContext) -> (r: Result<
        Option<Carved>,
        CarveError,
    >)
        ensures
            self.outcome(hit, ctx, r),
    {
        let header = ctx.evidence.read_at(hit.global_offset, 100);
        match sqlite_declared_size(header.as_slice()) {
            None => Ok(None),
            Some(size) => Ok(
                carve_declared(
                    ctx,
                    hit,
                    "sqlite",
                    self.extension.as_str(),
                    size,
                    self.min_size,
                    self.max_size,
                    "max_size reached before SQLite end",
                    "eof before SQLite end",
                ),
            ),
        }
    }
}

} // verus!
