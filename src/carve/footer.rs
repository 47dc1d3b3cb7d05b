//! Footer-terminated formats (JPEG, PNG, GIF): after the header magic, the
//! file runs to the end of the first footer.
use vstd::prelude::*;
use vstd::string::*;

use crate::carve::{describes, finish_record, stamped, Carved, CarveError, ExtractionContext, texts, errors_if};
use crate::evidence::{avail, window};
use crate::scanner::{find_from, first_match, matches_at, matches_here, NormalizedHit};

verus! {

/// How far the handler looks: `max_size` when set, else to the evidence end.
pub open spec fn search_limit(len: int, start: int, max_size: int) -> int {
    if max_size > 0 && max_size < avail(len, start) { max_size } else { avail(len, start) }
}

/// Size of the file a footer handler carves from the scanned bytes `data`:
/// through the first footer after the header, or all of `data` when none is found.
pub open spec fn footer_size(data: Seq<u8>, header_len: int, footer: Seq<u8>) -> int {
    match first_match(data, footer, header_len) {
        Some(p) => p + footer.len(),
        None => data.len() as int,
    }
}

pub struct FooterCarveHandler {
    file_type: String,
    extension: String,
    header: Vec<u8>,
    footer: Vec<u8>,
    min_size: u64,
    max_size: u64,
}

impl FooterCarveHandler {
    pub closed spec fn spec_file_type(&self) -> Seq<char> {
        self.file_type@
    }

    pub closed spec fn spec_extension(&self) -> Seq<char> {
        self.extension@
    }

    pub closed spec fn spec_header(&self) -> Seq<u8> {
        self.header@
    }

    pub closed spec fn spec_footer(&self) -> Seq<u8> {
        self.footer@
    }

    pub closed spec fn spec_min_size(&self) -> u64 {
        self.min_size
    }

    pub closed spec fn spec_max_size(&self) -> u64 {
        self.max_size
    }

    pub fn new(
        file_type: String,
        extension: String,
        header: Vec<u8>,
        footer: Vec<u8>,
        min_size: u64,
        max_size: u64,
    ) -> (r: Self)
        ensures
            r.spec_file_type() == file_type@,
            r.spec_extension() == extension@,
            r.spec_header() == header@,
            r.spec_footer() == footer@,
            r.spec_min_size() == min_size,
            r.spec_max_size() == max_size,
    {
        FooterCarveHandler { file_type, extension, header, footer, min_size, max_size }
    }

    /// JPEG: `FF D8 FF` up to the end-of-image marker `FF D9`.
    pub fn jpeg(extension: String, min_size: u64, max_size: u64) -> (r: Self)
        ensures
            r.spec_header() == seq![0xFFu8, 0xD8, 0xFF],
            r.spec_footer() == seq![0xFFu8, 0xD9],
            r.spec_file_type() == "jpeg"@,
            r.spec_extension() == extension@,
            r.spec_min_size() == min_size,
            r.spec_max_size() == max_size,
    {
        let r = FooterCarveHandler::new(
            String::from_str("jpeg"),
            extension,
            vec![0xFF, 0xD8, 0xFF],
            vec![0xFF, 0xD9],
            min_size,
            max_size,
        );
        assert(r.spec_header() =~= seq![0xFFu8, 0xD8, 0xFF]);
        assert(r.spec_footer() =~= seq![0xFFu8, 0xD9]);
        r
    }

    /// PNG: the 8-byte signature up to the end of the IEND chunk.
    pub fn png(extension: String, min_size: u64, max_size: u64) -> (r: Self)
        ensures
            r.spec_header() == seq![0x89u8, 0x50, 0x4E, 0x47, 0x0D, 0x0A, 0x1A, 0x0A],
            r.spec_footer() == seq![0x49u8, 0x45, 0x4E, 0x44, 0xAE, 0x42, 0x60, 0x82],
            r.spec_file_type() == "png"@,
            r.spec_extension() == extension@,
            r.spec_min_size() == min_size,
            r.spec_max_size() == max_size,
    {
        let r = FooterCarveHandler::new(
            String::from_str("png"),
            extension,
            vec![0x89, 0x50, 0x4E, 0x47, 0x0D, 0x0A, 0x1A, 0x0A],
            vec![0x49, 0x45, 0x4E, 0x44, 0xAE, 0x42, 0x60, 0x82],
            min_size,
            max_size,
        );
        assert(r.spec_header() =~= seq![0x89u8, 0x50, 0x4E, 0x47, 0x0D, 0x0A, 0x1A, 0x0A]);
        assert(r.spec_footer() =~= seq![0x49u8, 0x45, 0x4E, 0x44, 0xAE, 0x42, 0x60, 0x82]);
        r
    }

    /// GIF: `GIF8` up to the trailer `00 3B`.
    pub fn gif(extension: String, min_size: u64, max_size: u64) -> (r: Self)
        ensures
            r.spec_header() == seq![0x47u8, 0x49, 0x46, 0x38],
            r.spec_footer() == seq![0x00u8, 0x3B],
            r.spec_file_type() == "gif"@,
            r.spec_extension() == extension@,
            r.spec_min_size() == min_size,
            r.spec_max_size() == max_size,
    {
        let r = FooterCarveHandler::new(
            String::from_str("gif"),
            extension,
            vec![0x47, 0x49, 0x46, 0x38],
            vec![0x00, 0x3B],
            min_size,
            max_size,
        );
        assert(r.spec_header() =~= seq![0x47u8, 0x49, 0x46, 0x38]);
        assert(r.spec_footer() =~= seq![0x00u8, 0x3B]);
        r
    }

    pub fn file_type(&self) -> (r: &str)
        ensures
            r@ == self.spec_file_type(),
    {
        self.file_type.as_str()
    }

    pub fn extension(&self) -> (r: &str)
        ensures
            r@ == self.spec_extension(),
    {
        self.extension.as_str()
    }

    /// What `process_hit` returns for `hit` in `ctx`.
    pub open spec fn outcome(
        &self,
        hit: &NormalizedHit,
        ctx: &ExtractionContext,
        r: Result<Option<Carved>, CarveError>,
    ) -> bool {
        let ev = ctx.evidence.bytes();
        let start = hit.global_offset as int;
        let data = window(
            ev,
            start,
            search_limit(ev.len() as int, start, self.spec_max_size() as int),
        );
        let hl = self.spec_header().len() as int;
        let has_header = matches_at(data, self.spec_header(), 0);
        let found = first_match(data, self.spec_footer(), hl) is Some;
        let size = footer_size(data, hl, self.spec_footer());
        &&& r is Ok
        &&& r->Ok_0 is None <==> (!has_header || size < self.spec_min_size())
        &&& r->Ok_0 matches Some(c) ==> {
            &&& describes(c, ev)
            &&& stamped(c, ctx.run_id@, *hit, self.spec_file_type(), self.spec_extension())
            &&& c.record.size == size
            &&& c.record.truncated == !found
            &&& c.record.validated == found
            &&& texts(c.record.errors@) == errors_if(!found, "footer not found before end of search"@)
        }
    }

    /// Carves from the hit through the first footer after the header. When
    /// no footer turns up within `max_size` (or before the evidence end),
    /// everything searched is emitted as truncated. A hit without the header
    /// magic, or a file under `min_size`, gives no file.
    pub fn process_hit(&self, hit: &NormalizedHit, ctx: &ExtractionContext) -> (r: Result<
        Option<Carved>,
        CarveError,
    >)
        ensures
            self.outcome(hit, ctx, r),
    {
        let len = ctx.evidence.len();
        let start = hit.global_offset;
        let room = if start < len {
            len - start
        } else {
            0
        };
        let limit = if self.max_size > 0 && self.max_size < room {
            self.max_size
        } else {
            room
        };
        let data = ctx.evidence.read_at(start, limit);
        let hl = self.header.len();
        if hl > data.len() || !matches_here(data.as_slice(), self.header.as_slice(), 0) {
            return Ok(None);
        }
        let fl = self.footer.len();
        let end: Option<usize> = match find_from(data.as_slice(), self.footer.as_slice(), hl) {
            Some(p) => Some(p + fl),
            None => None,
        };
        let size: usize = match end {
            Some(e) => e,
            None => data.len(),
        };
        if (size as u64) < self.min_size {
            return Ok(None);
        }
        let mut errors: Vec<String> = Vec::new();
        let found = end.is_some();
        if !found {
            errors.push(String::from_str("footer not found before end of search"));
        }
        assert(texts(errors@) =~= errors_if(!found, "footer not found before end of search"@));
        let mut out: Vec<u8> = Vec::new();
        let mut i: usize = 0;
        while i < size
            invariant
                size <= data@.len(),
                i <= size,
                out@ == data@.subrange(0, i as int),
            decreases size - i,
        {
            out.push(data[i]);
            i = i + 1;
            assert(out@ =~= data@.subrange(0, i as int));
        }
        assert(out@ =~= window(ctx.evidence.bytes(), start as int, size as int));
        Ok(Some(finish_record(ctx, hit, self.file_type.as_str(), self.extension.as_str(), out, !found, found, errors)))
    }
}

} // verus!
