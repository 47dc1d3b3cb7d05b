//! ZIP and the formats built on it (OOXML, ODF, EPUB, JAR): from a local
//! file header to the end of the end-of-central-directory record and its
//! comment. The output extension comes from the member names inside.
use vstd::prelude::*;
use vstd::string::*;
use vstd::utf8::encode_utf8;

use crate::carve::footer::search_limit;
use crate::carve::{describes, finish_record, stamped, Carved, CarveError, ExtractionContext, texts, errors_if};
use crate::evidence::window;
use crate::fields::{le_u16, read_u16_le};
use crate::scanner::{find_from, first_match, matches_at, matches_here, NormalizedHit};

verus! {

/// Length of the end-of-central-directory record before its comment.
pub const EOCD_LEN: usize = 22;

pub open spec fn zip_local_magic() -> Seq<u8> {
    seq![0x50u8, 0x4B, 0x03, 0x04]
}

pub open spec fn zip_eocd_magic() -> Seq<u8> {
    seq![0x50u8, 0x4B, 0x05, 0x06]
}

/// Where the archive in `data` ends by its first end-of-central-directory
/// record, if one is complete in `data`.
pub open spec fn zip_end(data: Seq<u8>) -> Option<int> {
    match first_match(data, zip_eocd_magic(), 4) {
        Some(e) => if e + 22 <= data.len() {
            Some(e + 22 + le_u16(data, e + 20))
        } else {
            None
        },
        None => None,
    }
}

/// The carved size: to the archive end, never past the scanned bytes.
pub open spec fn zip_size(data: Seq<u8>) -> int {
    match zip_end(data) {
        Some(n) => if n < data.len() { n } else { data.len() as int },
        None => data.len() as int,
    }
}

/// The archive is complete in the scanned bytes.
pub open spec fn zip_complete(data: Seq<u8>) -> bool {
    zip_end(data) matches Some(n) && n <= data.len()
}

pub open spec fn names(d: Seq<u8>, s: Seq<char>) -> bool {
    first_match(d, encode_utf8(s), 0) is Some
}

/// Extension by the first marker found among the archive's bytes, else `default`.
pub open spec fn zip_extension(d: Seq<u8>, default: Seq<char>) -> Seq<char> {
    if names(d, "word/"@) {
        "docx"@
    } else if names(d, "xl/"@) {
        "xlsx"@
    } else if names(d, "ppt/"@) {
        "pptx"@
    } else if names(d, "application/epub+zip"@) {
        "epub"@
    } else if names(d, "opendocument.text"@) {
        "odt"@
    } else if names(d, "opendocument.spreadsheet"@) {
        "ods"@
    } else if names(d, "opendocument.presentation"@) {
        "odp"@
    } else if names(d, "META-INF/MANIFEST.MF"@) {
        "jar"@
    } else {
        default
    }
}

fn mentions(d: &[u8], s: &str) -> (r: bool)
    ensures
        r == names(d@, s@),
{
    find_from(d, s.as_bytes(), 0).is_some()
}

/// The output extension for the archive bytes `d`.
pub fn pick_zip_extension(d: &[u8], default: &str) -> (r: String)
    ensures
        r@ == zip_extension(d@, default@),
{
    if mentions(d, "word/") {
        String::from_str("docx")
    } else if mentions(d, "xl/") {
        String::from_str("xlsx")
    } else if mentions(d, "ppt/") {
        String::from_str("pptx")
    } else if mentions(d, "application/epub+zip") {
        String::from_str("epub")
    } else if mentions(d, "opendocument.text") {
        String::from_str("odt")
    } else if mentions(d, "opendocument.spreadsheet") {
        String::from_str("ods")
    } else if mentions(d, "opendocument.presentation") {
        String::from_str("odp")
    } else if mentions(d, "META-INF/MANIFEST.MF") {
        String::from_str("jar")
    } else {
        String::from_str(default)
    }
}

pub struct ZipCarveHandler {
    extension: String,
    min_size: u64,
    max_size: u64,
}

impl ZipCarveHandler {
    pub closed spec fn spec_extension(&self) -> Seq<char> {
        self.extension@
    }

    pub closed spec fn spec_min_size(&self) -> u64 {
        self.min_size
    }

    pub closed spec fn spec_max_size(&self) -> u64 {
        self.max_size
    }

    pub fn new(extension: String, min_size: u64, max_size: u64) -> (r: Self)
        ensures
            r.spec_extension() == extension@,
            r.spec_min_size() == min_size,
            r.spec_max_size() == max_size,
    {
        ZipCarveHandler { extension, min_size, max_size }
    }

    pub fn file_type(&self) -> (r: &'static str)
        ensures
            r@ == "zip"@,
    {
        "zip"
    }

    pub fn extension(&self) -> (r: &str)
        ensures
            r@ == self.spec_extension(),
    {
        self.extension.as_str()
    }

    /// What `process_hit` returns for `hit` in `ctx`.
    pub open spec fn outcome(
        &self,
        hit: &NormalizedHit,
        ctx: &ExtractionContext,
        r: Result<Option<Carved>, CarveError>,
    ) -> bool {
        let ev = ctx.evidence.bytes();
        let start = hit.global_offset as int;
        let data = window(
            ev,
            start,
            search_limit(ev.len() as int, start, self.spec_max_size() as int),
        );
        let size = zip_size(data);
        &&& r is Ok
        &&& r->Ok_0 is None <==> (!matches_at(data, zip_local_magic(), 0) || size
            < self.spec_min_size())
        &&& r->Ok_0 matches Some(c) ==> {
            &&& describes(c, ev)
            &&& stamped(
                c,
                ctx.run_id@,
                *hit,
                "zip"@,
                zip_extension(data.subrange(0, size), self.spec_extension()),
            )
            &&& c.record.size == size
            &&& c.record.truncated == !zip_complete(data)
            &&& c.record.validated == zip_complete(data)
            &&& texts(c.record.errors@) == errors_if(!zip_complete(data), "end of central directory not found"@)
        }
    }

    /// Carves from a local file header to the end of the first complete
    /// end-of-central-directory record and its comment. Without one within
    /// `max_size` (or before the evidence end) the scanned bytes are emitted
    /// as truncated. A hit without the local header magic, or a file under
    /// `min_size`, gives no file.
    pub fn process_hit(&self, hit: &NormalizedHit, ctx: &ExtractionContext) -> (r: Result<
        Option<Carved>,
        CarveError,
    >)
        ensures
            self.outcome(hit, ctx, r),
    {
        let len = ctx.evidence.len();
        let start = hit.global_offset;
        let room = if start < len {
            len - start
        } else {
            0
        };
        let limit = if self.max_size > 0 && self.max_size < room {
            self.max_size
        } else {
            room
        };
        let data = ctx.evidence.read_at(start, limit);
        let local: Vec<u8> = vec![0x50, 0x4B, 0x03, 0x04];
        assert(local@ =~= zip_local_magic());
        if data.len() < 4 || !matches_here(data.as_slice(), local.as_slice(), 0) {
            return Ok(None);
        }
        let eocd: Vec<u8> = vec![0x50, 0x4B, 0x05, 0x06];
        assert(eocd@ =~= zip_eocd_magic());
        let end: Option<u128> = match find_from(data.as_slice(), eocd.as_slice(), 4) {
            Some(e) => if data.len() >= EOCD_LEN && e <= data.len() - EOCD_LEN {
                let comment = read_u16_le(data.as_slice(), e + 20) as u128;
                Some(e as u128 + EOCD_LEN as u128 + comment)
            } else {
                None
            },
            None => None,
        };
        let complete = match end {
            Some(n) => n <= data.len() as u128,
            None => false,
        };
        let size: usize = match end {
            Some(n) => if n < data.len() as u128 {
                n as usize
            } else {
                data.len()
            },
            None => data.len(),
        };
        if (size as u64) < self.min_size {
            return Ok(None);
        }
        let mut out: Vec<u8> = Vec::new();
        let mut i: usize = 0;
        while i < size
            invariant
                size <= data@.len(),
                i <= size,
                out@ == data@.subrange(0, i as int),
            decreases size - i,
        {
            out.push(data[i]);
            i = i + 1;
            assert(out@ =~= data@.subrange(0, i as int));
        }
        let ext = pick_zip_extension(out.as_slice(), self.extension.as_str());
        let mut errors: Vec<String> = Vec::new();
        if !complete {
            errors.push(String::from_str("end of central directory not found"));
        }
        assert(texts(errors@) =~= errors_if(!complete, "end of central directory not found"@));
        assert(out@ =~= window(ctx.evidence.bytes(), start as int, size as int));
        Ok(
            Some(
                finish_record(
                    ctx,
                    hit,
                    "zip",
                    ext.as_str(),
                    out,
                    !complete,
                    complete,
                    errors,
                ),
            ),
        )
    }
}

} // verus!
