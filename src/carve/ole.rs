//! OLE Compound File Binary (DOC, XLS, PPT, MSG).
//!
//! The 512-byte header holds the signature, the byte order mark, the major
//! version and sector size power, and a 109-entry DIFAT of FAT sector ids at
//! byte 76. The carved length is an upper-bound estimate from the highest
//! FAT sector id, never past the size cap.
use vstd::prelude::*;
use vstd::string::*;

use crate::carve::{describes, finish_record, stamped, Carved, CarveError, CarveStream, ExtractionContext, texts};
use crate::evidence::{avail, window};
use crate::fields::{le_u16, le_u32, read_u16_le, read_u32_le};
use crate::scanner::NormalizedHit;

verus! {

pub const OLE_HEADER_LEN: u64 = 512;

/// Sector ids at or above this are markers (free, end of chain, ...).
pub const MAX_REGULAR_SECTOR: u32 = 0xFFFF_FFFA;

pub const DIFAT_ENTRIES: usize = 109;

pub const DIFAT_OFFSET: usize = 76;

/// Size cap when the handler is configured without one (512 MiB).
pub const DEFAULT_OLE_CAP: u64 = 536870912;

/// FAT sectors read past the header only when fewer than this many bytes (10 MiB).
pub const FAT_PROBE_LIMIT: u64 = 10485760;

pub open spec fn ole_signature(h: Seq<u8>) -> bool {
    h[0] == 0xD0 && h[1] == 0xCF && h[2] == 0x11 && h[3] == 0xE0 && h[4] == 0xA1 && h[5] == 0xB1
        && h[6] == 0x1A && h[7] == 0xE1
}

/// DIFAT entry `i` of a header.
pub open spec fn difat(h: Seq<u8>, i: int) -> int {
    le_u32(h, 76 + 4 * i)
}

/// Largest regular sector id among the first `k` DIFAT entries, or 0.
pub open spec fn difat_max(h: Seq<u8>, k: int) -> int
    decreases k,
{
    if k <= 0 {
        0
    } else {
        let prev = difat_max(h, k - 1);
        let s = difat(h, k - 1);
        if s < 0xFFFF_FFFA && s > prev { s } else { prev }
    }
}

/// Sector size of a well-formed header, if it is one.
pub open spec fn ole_sector_size(h: Seq<u8>) -> Option<int> {
    if h.len() < 512 || !ole_signature(h) || le_u16(h, 28) != 0xFFFE {
        None
    } else if le_u16(h, 26) == 3 && le_u16(h, 30) == 9 {
        Some(512)
    } else if le_u16(h, 26) == 4 && le_u16(h, 30) == 12 {
        Some(4096)
    } else {
        None
    }
}

/// Header-only size estimate: twice the sectors up to the highest one the
/// DIFAT or the directory start names, else a count from the FAT and DIFAT
/// sector numbers, plus the header.
pub open spec fn ole_estimate(h: Seq<u8>, ss: int) -> int {
    let dir = le_u32(h, 48);
    let m0 = difat_max(h, 109);
    let m = if dir < 0xFFFF_FFFA && dir > m0 { dir } else { m0 };
    let sectors = if m > 0 {
        (m + 1) * 2
    } else {
        let c = le_u32(h, 44) + le_u32(h, 68) + 10;
        if c > 10 { c } else { 10 }
    };
    ss + sectors * ss
}

/// Parses and validates an OLE header: the estimated size and the sector size.
pub fn parse_ole_header(header: &[u8]) -> (r: Result<(u64, u64), CarveError>)
    ensures
        match ole_sector_size(header@) {
            None => r matches Err(CarveError::Invalid(_)),
            Some(ss) => r matches Ok((est, s)) && s == ss && est == ole_estimate(header@, ss),
        },
{
    if header.len() < 512 {
        return Err(CarveError::Invalid(String::from_str("ole header too short")));
    }
    if !(header[0] == 0xD0 && header[1] == 0xCF && header[2] == 0x11 && header[3] == 0xE0
        && header[4] == 0xA1 && header[5] == 0xB1 && header[6] == 0x1A && header[7] == 0xE1) {
        return Err(CarveError::Invalid(String::from_str("ole signature mismatch")));
    }
    let byte_order = read_u16_le(header, 28);
    if byte_order != 0xFFFE {
        return Err(CarveError::Invalid(String::from_str("ole byte order invalid")));
    }
    let major = read_u16_le(header, 26);
    let power = read_u16_le(header, 30);
    let sector_size: u64 = if major == 3 {
        if power != 9 {
            return Err(CarveError::Invalid(String::from_str("ole v3 sector power invalid")));
        }
        512
    } else if major == 4 {
        if power != 12 {
            return Err(CarveError::Invalid(String::from_str("ole v4 sector power invalid")));
        }
        4096
    } else {
        return Err(CarveError::Invalid(String::from_str("ole version not supported")));
    };
    let num_fat = read_u32_le(header, 44) as u64;
    let first_dir = read_u32_le(header, 48) as u64;
    let num_difat = read_u32_le(header, 68) as u64;
    let mut max_sector: u64 = 0;
    let mut i: usize = 0;
    while i < DIFAT_ENTRIES
        invariant
            header@.len() >= 512,
            i <= 109,
            max_sector == difat_max(header@, i as int),
            max_sector < 0xFFFF_FFFA,
        decreases 109 - i,
    {
        let sector_id = read_u32_le(header, DIFAT_OFFSET + i * 4) as u64;
        if sector_id < MAX_REGULAR_SECTOR as u64 && sector_id > max_sector {
            max_sector = sector_id;
        }
        i = i + 1;
    }
    if first_dir < MAX_REGULAR_SECTOR as u64 && first_dir > max_sector {
        max_sector = first_dir;
    }
    let estimated_sectors = if max_sector > 0 {
        (max_sector + 1) * 2
    } else {
        let c = num_fat + num_difat + 10;
        if c > 10 {
            c
        } else {
            10
        }
    };
    assert(estimated_sectors * sector_size <= 0x3_0000_0000 * 4096) by (nonlinear_arith)
        requires
            estimated_sectors <= 0x3_0000_0000,
            sector_size <= 4096,
    ;
    Ok((sector_size + estimated_sectors * sector_size, sector_size))
}

/// The largest of `cur` and the DIFAT entries from `i` on, up to the first marker.
pub open spec fn lead_max(h: Seq<u8>, i: int, cur: int) -> int
    decreases 109 - i,
{
    if i >= 109 || difat(h, i) >= 0xFFFF_FFFA {
        cur
    } else {
        lead_max(h, i + 1, if difat(h, i) > cur { difat(h, i) } else { cur })
    }
}

proof fn lemma_lead_max_bounds(h: Seq<u8>, i: int, cur: int)
    requires
        0 <= cur < 0xFFFF_FFFA,
    ensures
        cur <= lead_max(h, i, cur) < 0xFFFF_FFFA,
    decreases 109 - i,
{
    if i >= 109 || difat(h, i) >= 0xFFFF_FFFA {
    } else {
        lemma_lead_max_bounds(h, i + 1, if difat(h, i) > cur { difat(h, i) } else { cur });
    }
}

/// Offset of the first FAT sector when the DIFAT names one.
pub open spec fn fat_offset(h: Seq<u8>, ss: int) -> int {
    ss + difat(h, 0) * ss
}

/// Size estimate after looking at the FAT: three times the sectors up to the
/// highest leading FAT sector id, never past `cap`. Without a FAT sector id
/// it is two sectors.
pub open spec fn ole_refined(h: Seq<u8>, ss: int, cap: int) -> int {
    if difat(h, 0) >= 0xFFFF_FFFA {
        ss * 2
    } else if fat_offset(h, ss) + ss > cap {
        if fat_offset(h, ss) < cap { fat_offset(h, ss) } else { cap }
    } else {
        let est = ss + (lead_max(h, 0, difat(h, 0)) + 1) * 3 * ss;
        if est < cap { est } else { cap }
    }
}

/// Refines the size estimate from the FAT sector ids, reading through to
/// the end of the first FAT sector when that is near.
fn refine_ole_size(stream: &mut CarveStream, header: &[u8], sector_size: u64, max_size: u64) -> (r: u64)
    requires
        old(stream).wf(),
        old(stream).written().len() == 512,
        old(stream).spec_limit() == max_size,
        max_size >= 512,
        header@.len() >= 512,
        sector_size == 512 || sector_size == 4096,
    ensures
        final(stream).wf(),
        final(stream).spec_evidence() == old(stream).spec_evidence(),
        final(stream).spec_start() == old(stream).spec_start(),
        final(stream).spec_limit() == old(stream).spec_limit(),
        r == ole_refined(header@, sector_size as int, max_size as int),
        difat(header@, 0) >= 0xFFFF_FFFA ==> final(stream).written() == old(stream).written(),
        final(stream).written().len() <= r,
        final(stream).written().len() <= max_size,
        512 <= final(stream).written().len(),
{
    let first = read_u32_le(header, DIFAT_OFFSET) as u64;
    if first >= MAX_REGULAR_SECTOR as u64 {
        return sector_size * 2;
    }
    assert(first * sector_size <= 0xFFFF_FFFF * 4096) by (nonlinear_arith)
        requires
            first <= 0xFFFF_FFFF,
            sector_size <= 4096,
    ;
    let fat_off = sector_size + first * sector_size;
    if fat_off + sector_size > max_size {
        assert(fat_off >= 512);
        return if fat_off < max_size {
            fat_off
        } else {
            max_size
        };
    }
    let to_read = fat_off + sector_size - 512;
    if to_read > 0 && to_read < FAT_PROBE_LIMIT {
        let _ = stream.read_exact(to_read);
    }
    let mut max_used: u64 = first;
    let mut i: usize = 1;
    proof {
        lemma_lead_max_bounds(header@, 1, first as int);
    }
    while i < DIFAT_ENTRIES
        invariant
            header@.len() >= 512,
            1 <= i <= 109,
            first <= max_used < 0xFFFF_FFFA,
            lead_max(header@, i as int, max_used as int) == lead_max(header@, 1, first as int),
        ensures
            first <= max_used < 0xFFFF_FFFA,
            max_used == lead_max(header@, 1, first as int),
        decreases 109 - i,
    {
        let sector_id = read_u32_le(header, DIFAT_OFFSET + i * 4) as u64;
        assert(sector_id == difat(header@, i as int));
        if sector_id >= MAX_REGULAR_SECTOR as u64 {
            assert(lead_max(header@, i as int, max_used as int) == max_used);
            break;
        }
        if sector_id > max_used {
            max_used = sector_id;
        }
        i = i + 1;
    }
    proof {
        assert(first == difat(header@, 0));
        assert(lead_max(header@, 0, first as int) == lead_max(header@, 1, first as int));
    }
    assert((max_used + 1) * 3 * sector_size <= 0x1_0000_0000 * 3 * 4096) by (nonlinear_arith)
        requires
            max_used < 0xFFFF_FFFF,
            sector_size <= 4096,
    ;
    assert((max_used + 1) * 3 * sector_size >= (first + 1) * sector_size) by (nonlinear_arith)
        requires
            max_used >= first,
            sector_size >= 0,
    ;
    let estimated = sector_size + (max_used + 1) * 3 * sector_size;
    if estimated < max_size {
        estimated
    } else {
        max_size
    }
}

/// Size of the file the OLE handler carves at `start`, when the header read
/// succeeded and named sector size `ss`.
pub open spec fn ole_size(len: int, start: int, h: Seq<u8>, ss: int, cap: int) -> int {
    let t = ole_refined(h, ss, cap);
    let target = if t < cap { t } else { cap };
    if target < avail(len, start) { target } else { avail(len, start) }
}

/// The size cap that applies: `max_size`, or 512 MiB when that is 0.
pub open spec fn ole_cap(max_size: int) -> int {
    if max_size > 0 { max_size } else { 536870912 }
}

/// Errors of an OLE carve: why the header read fell short (evidence end or
/// size cap), then whether the configured cap was reached.
pub open spec fn ole_errors(header_read: bool, evidence_short: bool, capped: bool) -> Seq<Seq<char>> {
    (if header_read {
        Seq::empty()
    } else if evidence_short {
        seq![CarveError::Eof.text()]
    } else {
        seq![CarveError::Truncated.text()]
    }) + (if capped {
        seq!["max_size reached"@]
    } else {
        Seq::empty()
    })
}

pub struct OleCarveHandler {
    extension: String,
    min_size: u64,
    max_size: u64,
}

impl OleCarveHandler {
    pub closed spec fn spec_extension(&self) -> Seq<char> {
        self.extension@
    }

    pub closed spec fn spec_min_size(&self) -> u64 {
        self.min_size
    }

    pub closed spec fn spec_max_size(&self) -> u64 {
        self.max_size
    }

    pub fn new(extension: String, min_size: u64, max_size: u64) -> (r: Self)
        ensures
            r.spec_extension() == extension@,
            r.spec_min_size() == min_size,
            r.spec_max_size() == max_size,
    {
        OleCarveHandler { extension, min_size, max_size }
    }

    pub fn file_type(&self) -> (r: &'static str)
        ensures
            r@ == "ole"@,
    {
        "ole"
    }

    pub fn extension(&self) -> (r: &str)
        ensures
            r@ == self.spec_extension(),
    {
        self.extension.as_str()
    }

    /// What `process_hit` returns for `hit` in `ctx`.
    pub open spec fn outcome(
        &self,
        hit: &NormalizedHit,
        ctx: &ExtractionContext,
        r: Result<Option<Carved>, CarveError>,
    ) -> bool {
        let ev = ctx.evidence.bytes();
        let len = ev.len() as int;
        let start = hit.global_offset as int;
        let cap = ole_cap(self.spec_max_size() as int);
        let a = avail(len, start);
        let h = window(ev, start, 512);
        let header_read = cap >= 512 && a >= 512;
        let ss = ole_sector_size(h);
        let size = if header_read {
            ole_size(len, start, h, ss->Some_0, cap)
        } else if cap < a && cap < 512 {
            cap
        } else if a < 512 {
            a
        } else {
            512
        };
        let truncated = !header_read || (self.spec_max_size() > 0 && size
            >= self.spec_max_size());
        &&& r is Ok
        &&& r->Ok_0 is None <==> ((header_read && ss is None) || size
            < self.spec_min_size())
        &&& r->Ok_0 matches Some(c) ==> {
            &&& describes(c, ev)
            &&& stamped(c, ctx.run_id@, *hit, "ole"@, self.spec_extension())
            &&& c.record.size == size
            &&& c.record.truncated == truncated
            &&& c.record.validated == !truncated
            &&& texts(c.record.errors@) == ole_errors(
                header_read,
                a < (if cap < 512 { cap } else { 512 }),
                self.spec_max_size() > 0 && size >= self.spec_max_size(),
            )
        }
    }

    /// Carves the OLE file at the hit. When the whole header cannot be read
    /// (evidence end or cap), what was read is emitted as truncated. A header
    /// that fails validation gives no file. Otherwise the file runs to the
    /// refined estimate, cut at the cap and at the evidence end; reaching the
    /// configured `max_size` marks it truncated. Files under `min_size` are
    /// not emitted.
    pub fn process_hit(&self, hit: &NormalizedHit, ctx: &ExtractionContext) -> (r: Result<
        Option<Carved>,
        CarveError,
    >)
        ensures
            self.outcome(hit, ctx, r),
    {
        let effective_max = if self.max_size > 0 {
            self.max_size
        } else {
            DEFAULT_OLE_CAP
        };
        let mut stream = CarveStream::new(ctx.evidence, hit.global_offset, effective_max);
        let mut validated = false;
        let mut truncated = false;
        let mut errors: Vec<String> = Vec::new();
        let ghost a = crate::evidence::avail(ctx.evidence.bytes().len() as int, hit.global_offset as int);
        let ghost cap = effective_max as int;
        let ghost short = a < (if cap < 512 { cap } else { 512 });
        match stream.read_exact(OLE_HEADER_LEN) {
            Err(e) => {
                truncated = true;
                errors.push(e.message());
                proof {
                    if short {
                        assert(e is Eof);
                    } else {
                        assert(e is Truncated);
                    }
                    assert(texts(errors@) =~= ole_errors(false, short, false));
                }
            },
            Ok(header) => {
                match parse_ole_header(header.as_slice()) {
                    Err(_) => {
                        return Ok(None);
                    },
                    Ok((_estimated, sector_size)) => {
                        let refined = refine_ole_size(
                            &mut stream,
                            header.as_slice(),
                            sector_size,
                            effective_max,
                        );
                        let target = if refined < effective_max {
                            refined
                        } else {
                            effective_max
                        };
                        let already = stream.bytes_written();
                        if target > already {
                            let _ = stream.read_exact(target - already);
                        }
                        validated = true;
                        assert(texts(errors@) =~= ole_errors(true, short, false));
                    },
                }
            },
        }
        let ghost head = texts(errors@);
        let data = stream.into_bytes();
        let size = data.len() as u64;
        if size < self.min_size {
            return Ok(None);
        }
        if self.max_size > 0 && size >= self.max_size {
            truncated = true;
            errors.push(String::from_str("max_size reached"));
            assert(texts(errors@) =~= head + seq!["max_size reached"@]);
        } else {
            assert(texts(errors@) =~= head + Seq::<Seq<char>>::empty());
        }
        let validated = validated && !truncated;
        Ok(
            Some(
                finish_record(
                    ctx,
                    hit,
                    "ole",
                    self.extension.as_str(),
                    data,
                    truncated,
                    validated,
                    errors,
                ),
            ),
        )
    }
}

} // verus!
