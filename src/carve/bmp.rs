//! BMP: the 14-byte file header declares the total size; the DIB header
//! that follows is checked for plausibility before anything is carved.
use vstd::prelude::*;

use crate::carve::{
    carve_declared, declared_size, declared_truncated, describes, stamped, Carved, CarveError,
    ExtractionContext, texts, declared_errors
};
use crate::evidence::window;
use crate::fields::{le_u16, le_u32, read_u16_le, read_u32_le};
use crate::scanner::NormalizedHit;

verus! {

/// Bytes read at the hit: the file header and a BITMAPINFOHEADER.
pub const BMP_PROBE_LEN: u64 = 58;

/// File header and the DIB header size field.
pub const BMP_MIN_HEADER: u64 = 18;

pub const BMP_HEADER_LEN: u64 = 14;

pub const MAX_DIMENSION: u64 = 32768;

/// DIB header sizes of the common BMP variants (core, info, v2 to v5).
pub open spec fn valid_dib_size(d: int) -> bool {
    d == 12 || d == 40 || d == 52 || d == 56 || d == 108 || d == 124
}

pub open spec fn valid_bpp(b: int) -> bool {
    b == 1 || b == 4 || b == 8 || b == 16 || b == 24 || b == 32
}

/// Magnitude of a 32-bit two's complement value given by its raw bits.
pub open spec fn magnitude32(raw: int) -> int {
    if raw < 0x8000_0000 { raw } else { 0x1_0000_0000 - raw }
}

/// Row bytes (padded to 4) times rows, after the pixel offset.
pub open spec fn min_expected_size(pixel_offset: int, width: int, height: int, bpp: int) -> int {
    pixel_offset + ((width * bpp + 31) / 32) * 4 * height
}

/// The dimension and depth checks that apply once a BITMAPINFOHEADER or a
/// larger DIB header is present.
pub open spec fn bmp_dims_ok(h: Seq<u8>) -> bool {
    let w = le_u32(h, 18);
    let ht = magnitude32(le_u32(h, 22));
    if !(1 <= w < 0x8000_0000) || w > 32768 || ht > 32768 {
        false
    } else if h.len() >= 30 {
        let bpp = le_u16(h, 28);
        let need = min_expected_size(le_u32(h, 10), w, ht, bpp);
        valid_bpp(bpp) && le_u32(h, 2) >= need - 1024
    } else {
        true
    }
}

/// The declared file size of the BMP at the start of `h`, if `h` is one.
pub open spec fn bmp_declared(h: Seq<u8>) -> Option<int> {
    if h.len() < 18 || h[0] != 0x42 || h[1] != 0x4D {
        None
    } else {
        let file_size = le_u32(h, 2);
        let pixel_offset = le_u32(h, 10);
        let dib = le_u32(h, 14);
        if file_size < 14 || pixel_offset < 14 || pixel_offset > file_size {
            None
        } else if !valid_dib_size(dib) {
            None
        } else if pixel_offset < 14 + dib {
            None
        } else if dib >= 40 && h.len() >= 26 && !bmp_dims_ok(h) {
            None
        } else {
            Some(file_size)
        }
    }
}

/// Validates a BMP header and returns the size it declares.
pub fn bmp_declared_size(header: &[u8]) -> (r: Option<u64>)
    ensures
        match bmp_declared(header@) {
            None => r is None,
            Some(v) => r == Some(v as u64),
        },
{
    let n = header.len();
    if n < 18 || header[0] != 0x42 || header[1] != 0x4D {
        return None;
    }
    let file_size = read_u32_le(header, 2) as u64;
    let pixel_offset = read_u32_le(header, 10) as u64;
    if file_size < BMP_HEADER_LEN || pixel_offset < BMP_HEADER_LEN || pixel_offset > file_size {
        return None;
    }
    let dib = read_u32_le(header, 14) as u64;
    if !(dib == 12 || dib == 40 || dib == 52 || dib == 56 || dib == 108 || dib == 124) {
        return None;
    }
    if pixel_offset < BMP_HEADER_LEN + dib {
        return None;
    }
    if dib >= 40 && n >= 26 {
        let w = read_u32_le(header, 18) as u64;
        let h_raw = read_u32_le(header, 22) as u64;
        let ht: u64 = if h_raw < 0x8000_0000 {
            h_raw
        } else {
            0x1_0000_0000 - h_raw
        };
        if !(1 <= w && w < 0x8000_0000) || w > MAX_DIMENSION || ht > MAX_DIMENSION {
            return None;
        }
        if n >= 30 {
            let bpp = read_u16_le(header, 28) as u64;
            if !(bpp == 1 || bpp == 4 || bpp == 8 || bpp == 16 || bpp == 24 || bpp == 32) {
                return None;
            }
            assert(w * bpp <= 32768 * 32) by (nonlinear_arith)
                requires
                    w <= 32768,
                    bpp <= 32,
            ;
            let row = ((w * bpp + 31) / 32) * 4;
            assert(row * ht <= 200000 * 32768) by (nonlinear_arith)
                requires
                    row <= 200000,
                    ht <= 32768,
            ;
            let need = pixel_offset + row * ht;
            let floor = if need >= 1024 {
                need - 1024
            } else {
                0
            };
            if file_size < floor {
                return None;
            }
        }
    }
    Some(file_size)
}

pub struct BmpCarveHandler {
    extension: String,
    min_size: u64,
    max_size: u64,
}

impl BmpCarveHandler {
    pub closed spec fn spec_extension(&self) -> Seq<char> {
        self.extension@
    }

    pub closed spec fn spec_min_size(&self) -> u64 {
        self.min_size
    }

    pub closed spec fn spec_max_size(&self) -> u64 {
        self.max_size
    }

    pub fn new(extension: String, min_size: u64, max_size: u64) -> (r: Self)
        ensures
            r.spec_extension() == extension@,
            r.spec_min_size() == min_size,
            r.spec_max_size() == max_size,
    {
        BmpCarveHandler { extension, min_size, max_size }
    }

    pub fn file_type(&self) -> (r: &'static str)
        ensures
            r@ == "bmp"@,
    {
        "bmp"
    }

    pub fn extension(&self) -> (r: &str)
        ensures
            r@ == self.spec_extension(),
    {
        self.extension.as_str()
    }

    /// What `process_hit` returns for `hit` in `ctx`.
    pub open spec fn outcome(
        &self,
        hit: &NormalizedHit,
        ctx: &ExtractionContext,
        r: Result<Option<Carved>, CarveError>,
    ) -> bool {
        let ev = ctx.evidence.bytes();
        let len = ev.len() as int;
        let start = hit.global_offset as int;
        let d = bmp_declared(window(ev, start, 58));
        let max = self.spec_max_size() as int;
        &&& r is Ok
        &&& r->Ok_0 is None <==> (d is None || declared_size(len, start, d->Some_0, max)
            < self.spec_min_size())
        &&& r->Ok_0 matches Some(c) ==> {
            &&& describes(c, ev)
            &&& stamped(c, ctx.run_id@, *hit, "bmp"@, self.spec_extension())
            &&& c.record.size == declared_size(len, start, d->Some_0, max)
            &&& c.record.truncated == declared_truncated(len, start, d->Some_0, max)
            &&& c.record.validated == !c.record.truncated
            &&& texts(c.record.errors@) == declared_errors(len, start, d->Some_0, max, "max_size reached before BMP end"@, "eof before BMP end"@)
        }
    }

    /// Carves the BMP at the hit to its declared size, cut at `max_size` and
    /// at the evidence end. A header that fails the checks, or a file under
    /// `min_size`, gives no file.
    pub fn process_hit(&self, hit: &NormalizedHit, ctx: &ExtractionContext) -> (r: Result<
        Option<Carved>,
        CarveError,
    >)
        ensures
            self.outcome(hit, ctx, r),
    {
        let header = ctx.evidence.read_at(hit.global_offset, BMP_PROBE_LEN);
        match bmp_declared_size(header.as_slice()) {
            None => Ok(None),
            Some(file_size) => Ok(
                carve_declared(
                    ctx,
                    hit,
                    "bmp",
                    self.extension.as_str(),
                    file_size,
                    self.min_size,
                    self.max_size,
                    "max_size reached before BMP end",
                    "eof before BMP end",
                ),
            ),
        }
    }
}

} // verus!
