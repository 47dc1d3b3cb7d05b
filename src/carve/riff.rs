//! RIFF containers (WAV, AVI, WebP): a 12-byte header declares the length.
//!
//! Bytes 0-3 hold "RIFF", bytes 4-7 the little-endian size of everything after
//! that field, bytes 8-11 the form type. The whole file is that size plus 8.
use vstd::prelude::*;
use vstd::string::*;

use crate::carve::{
    carve_declared, declared_size, declared_truncated, describes, stamped, Carved, CarveError,
    ExtractionContext, texts, declared_errors
};
use crate::fields::{le_u32, read_u32_le};
use crate::scanner::NormalizedHit;

verus! {

pub const RIFF_MAGIC: [u8; 4] = [0x52, 0x49, 0x46, 0x46];

pub const WAVE_FORM: [u8; 4] = [0x57, 0x41, 0x56, 0x45];

pub const AVI_FORM: [u8; 4] = [0x41, 0x56, 0x49, 0x20];

pub const WEBP_FORM: [u8; 4] = [0x57, 0x45, 0x42, 0x50];

pub open spec fn riff_magic_at(h: Seq<u8>) -> bool {
    h[0] == 0x52 && h[1] == 0x49 && h[2] == 0x46 && h[3] == 0x46
}

/// Parses a RIFF header into its form type and the total file size.
pub fn parse_riff_header(header: &[u8]) -> (r: Result<([u8; 4], u64), CarveError>)
    ensures
        header@.len() < 12 ==> r matches Err(CarveError::Invalid(_)),
        header@.len() >= 12 && !riff_magic_at(header@) ==> r matches Err(CarveError::Invalid(_)),
        header@.len() >= 12 && riff_magic_at(header@) ==> (r matches Ok((form, size)) && form@
            == header@.subrange(8, 12) && size == le_u32(header@, 4) + 8),
{
    if header.len() < 12 {
        return Err(CarveError::Invalid(String::from_str("riff header too short")));
    }
    if !(header[0] == 0x52 && header[1] == 0x49 && header[2] == 0x46 && header[3] == 0x46) {
        return Err(CarveError::Invalid(String::from_str("riff magic mismatch")));
    }
    let chunk_size = read_u32_le(header, 4) as u64;
    let form = [header[8], header[9], header[10], header[11]];
    assert(form@ =~= header@.subrange(8, 12));
    Ok((form, chunk_size + 8))
}

/// Carves RIFF files of one form type.
pub struct RiffCarveHandler {
    file_type: String,
    form: [u8; 4],
    extension: String,
    min_size: u64,
    max_size: u64,
}

/// The declared total size of the RIFF file of form `form` at the start of
/// `h`, if `h` is one.
pub open spec fn riff_declared(h: Seq<u8>, form: Seq<u8>) -> Option<int> {
    if h.len() >= 12 && riff_magic_at(h) && h.subrange(8, 12) == form {
        Some(le_u32(h, 4) + 8)
    } else {
        None
    }
}

impl RiffCarveHandler {
    pub closed spec fn spec_file_type(&self) -> Seq<char> {
        self.file_type@
    }

    pub closed spec fn spec_form(&self) -> Seq<u8> {
        self.form@
    }

    pub closed spec fn spec_extension(&self) -> Seq<char> {
        self.extension@
    }

    pub closed spec fn spec_min_size(&self) -> u64 {
        self.min_size
    }

    pub closed spec fn spec_max_size(&self) -> u64 {
        self.max_size
    }

    pub fn new(file_type: String, form: [u8; 4], extension: String, min_size: u64, max_size: u64) -> (r: Self)
        ensures
            r.spec_file_type() == file_type@,
            r.spec_form() == form@,
            r.spec_extension() == extension@,
            r.spec_min_size() == min_size,
            r.spec_max_size() == max_size,
    {
        RiffCarveHandler { file_type, form, extension, min_size, max_size }
    }

    pub fn file_type(&self) -> (r: &str)
        ensures
            r@ == self.spec_file_type(),
    {
        self.file_type.as_str()
    }

    pub fn extension(&self) -> (r: &str)
        ensures
            r@ == self.spec_extension(),
    {
        self.extension.as_str()
    }

    /// What `process_hit` returns for `hit` in `ctx`.
    pub open spec fn outcome(
        &self,
        hit: &NormalizedHit,
        ctx: &ExtractionContext,
        r: Result<Option<Carved>, CarveError>,
    ) -> bool {
        let ev = ctx.evidence.bytes();
        let len = ev.len() as int;
        let start = hit.global_offset as int;
        let h = crate::evidence::window(ev, start, 12);
        &&& r is Ok
        &&& r->Ok_0 is None <==> (riff_declared(h, self.spec_form()) is None
            || declared_size(len, start, riff_declared(h, self.spec_form())->Some_0, self.spec_max_size() as int)
            < self.spec_min_size())
        &&& r->Ok_0 matches Some(c) ==> {
            let declared = riff_declared(h, self.spec_form())->Some_0;
            &&& describes(c, ev)
            &&& stamped(c, ctx.run_id@, *hit, self.spec_file_type(), self.spec_extension())
            &&& c.record.size == declared_size(len, start, declared, self.spec_max_size() as int)
            &&& c.record.truncated == declared_truncated(len, start, declared, self.spec_max_size() as int)
            &&& c.record.validated == !c.record.truncated
            &&& texts(c.record.errors@) == declared_errors(len, start, riff_declared(h, self.spec_form())->Some_0, self.spec_max_size() as int, "max_size reached before RIFF end"@, "eof before RIFF end"@)
        }
    }

    /// Carves the RIFF file of this handler's form type at the hit: its
    /// declared length, cut at `max_size` and at the evidence end. Anything
    /// else at the hit, or a file under `min_size`, gives no file.
    pub fn process_hit(&self, hit: &NormalizedHit, ctx: &ExtractionContext) -> (r: Result<
        Option<Carved>,
        CarveError,
    >)
        ensures
            self.outcome(hit, ctx, r),
    {
        let header = ctx.evidence.read_at(hit.global_offset, 12);
        match parse_riff_header(header.as_slice()) {
            Err(_) => Ok(None),
            Ok((form, total)) => {
                if !(form[0] == self.form[0] && form[1] == self.form[1] && form[2] == self.form[2]
                    && form[3] == self.form[3]) {
                    return Ok(None);
                }
                assert(form@ =~= self.form@);
                Ok(
                    carve_declared(
                        ctx,
                        hit,
                        self.file_type.as_str(),
                        self.extension.as_str(),
                        total,
                        self.min_size,
                        self.max_size,
                        "max_size reached before RIFF end",
                        "eof before RIFF end",
                    ),
                )
            },
        }
    }
}

} // verus!
