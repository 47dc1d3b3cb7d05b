//! Carve handlers and the helpers they share: output naming, range copying,
//! bounded streaming, and building the carved-file record.
use vstd::prelude::*;
use vstd::string::*;

use crate::digest::{hex16, hex_chars, md5_hex, md5_of, sha256_hex, sha256_of, to_hex16};
use crate::evidence::{avail, window, Evidence};
use crate::scanner::NormalizedHit;

pub mod bmp;
pub mod footer;
pub mod mp3;
pub mod registry;
pub mod ole;
pub mod rar;
pub mod riff;
pub mod sevenz;
pub mod sqlite;
pub mod zip;

verus! {

#[derive(Debug)]
pub enum CarveError {
    /// The size cap was reached before the requested bytes.
    Truncated,
    /// The evidence ended before the requested bytes.
    Eof,
    /// The candidate is not an instance of the format.
    Invalid(String),
    Io(String),
    Evidence(String),
}

impl CarveError {
    pub open spec fn text(&self) -> Seq<char> {
        match self {
            CarveError::Truncated => "truncated: size cap reached"@,
            CarveError::Eof => "unexpected end of evidence"@,
            CarveError::Invalid(reason) => "invalid: "@ + reason@,
            CarveError::Io(reason) => "io error: "@ + reason@,
            CarveError::Evidence(reason) => "evidence error: "@ + reason@,
        }
    }

    /// A short human-readable description.
    pub fn message(&self) -> (r: String)
        ensures
            r@ == self.text(),
    {
        match self {
            CarveError::Truncated => String::from_str("truncated: size cap reached"),
            CarveError::Eof => String::from_str("unexpected end of evidence"),
            CarveError::Invalid(reason) => String::from_str("invalid: ").concat(reason.as_str()),
            CarveError::Io(reason) => String::from_str("io error: ").concat(reason.as_str()),
            CarveError::Evidence(reason) => String::from_str("evidence error: ").concat(
                reason.as_str(),
            ),
        }
    }
}

/// The metadata record of one carved file.
#[derive(Debug, Clone)]
pub struct CarvedFile {
    pub run_id: String,
    pub file_type: String,
    /// Output path relative to the run's output root.
    pub path: String,
    pub extension: String,
    pub global_start: u64,
    /// Inclusive end offset.
    pub global_end: u64,
    pub size: u64,
    pub md5: Option<String>,
    pub sha256: Option<String>,
    pub validated: bool,
    pub truncated: bool,
    pub errors: Vec<String>,
    pub pattern_id: Option<String>,
}

/// A carved file: its record and the bytes to store at `record.path`.
#[derive(Debug)]
pub struct Carved {
    pub record: CarvedFile,
    pub data: Vec<u8>,
}

/// What a handler sees of the run.
pub struct ExtractionContext<'a> {
    pub run_id: &'a str,
    pub evidence: &'a Evidence,
}

/// `carved/<file_type>_<offset as 16 hex digits>.<extension>`
pub open spec fn rel_path(file_type: Seq<char>, extension: Seq<char>, offset: u64) -> Seq<char> {
    "carved/"@ + file_type + "_"@ + hex16(offset) + "."@ + extension
}

/// A carved file is faithful to the evidence `ev`: its bytes are the evidence
/// range it names, its size and end offset agree with them, its hashes are
/// those of its bytes, and a validated file is never a truncated one.
pub open spec fn describes(c: Carved, ev: Seq<u8>) -> bool {
    let r = c.record;
    &&& r.size == c.data@.len()
    &&& r.size > 0 ==> r.global_end == r.global_start + r.size - 1
    &&& r.size == 0 ==> r.global_end == r.global_start
    &&& r.size > 0 ==> r.global_start + r.size <= ev.len() && c.data@ == ev.subrange(
        r.global_start as int,
        r.global_start + r.size,
    )
    &&& r.md5 is Some && r.md5->Some_0@ == hex_chars(md5_of(c.data@))
    &&& r.sha256 is Some && r.sha256->Some_0@ == hex_chars(sha256_of(c.data@))
    &&& r.validated ==> !r.truncated
    &&& r.path@ == rel_path(r.file_type@, r.extension@, r.global_start)
}

/// The fields that every handler copies from the hit and the context.
pub open spec fn stamped(
    c: Carved,
    run_id: Seq<char>,
    hit: NormalizedHit,
    file_type: Seq<char>,
    extension: Seq<char>,
) -> bool {
    &&& c.record.run_id@ == run_id
    &&& c.record.global_start == hit.global_offset
    &&& c.record.file_type@ == file_type
    &&& c.record.extension@ == extension
    &&& c.record.pattern_id == Some(hit.pattern_id)
}

/// Relative output path of the file carved at `offset`.
pub fn output_path(file_type: &str, extension: &str, offset: u64) -> (r: String)
    ensures
        r@ == rel_path(file_type@, extension@, offset),
{
    let hex = to_hex16(offset);
    let p = String::from_str("carved/").concat(file_type).concat("_").concat(hex.as_str()).concat(
        ".",
    ).concat(extension);
    p
}

/// Copies the evidence range that starts at `start` and is `want` bytes long,
/// as far as the evidence goes. The flag tells whether the evidence ended first.
pub fn write_range(ev: &Evidence, start: u64, want: u64) -> (r: (Vec<u8>, bool))
    ensures
        r.0@ == window(ev.bytes(), start as int, want as int),
        r.0@.len() == if want < avail(ev.bytes().len() as int, start as int) { want as int } else {
            avail(ev.bytes().len() as int, start as int)
        },
        r.1 == (want > avail(ev.bytes().len() as int, start as int)),
{
    let data = ev.read_at(start, want);
    let short = (data.len() as u64) < want;
    (data, short)
}

/// Builds the record of a file whose bytes `data` were read from `start`.
pub fn finish_record(
    ctx: &ExtractionContext,
    hit: &NormalizedHit,
    file_type: &str,
    extension: &str,
    data: Vec<u8>,
    truncated: bool,
    validated: bool,
    errors: Vec<String>,
) -> (r: Carved)
    requires
        data@ == window(ctx.evidence.bytes(), hit.global_offset as int, data@.len() as int),
        data@.len() <= avail(ctx.evidence.bytes().len() as int, hit.global_offset as int),
        validated ==> !truncated,
    ensures
        describes(r, ctx.evidence.bytes()),
        stamped(r, ctx.run_id@, *hit, file_type@, extension@),
        r.data@ == data@,
        r.record.truncated == truncated,
        r.record.validated == validated,
        r.record.errors@ == errors@,
{
    let size = data.len() as u64;
    let start = hit.global_offset;
    let _ev_len = ctx.evidence.len();
    let global_end = if size == 0 {
        start
    } else {
        start + size - 1
    };
    let md5 = md5_hex(data.as_slice());
    let sha256 = sha256_hex(data.as_slice());
    let path = output_path(file_type, extension, start);
    let record = CarvedFile {
        run_id: String::from_str(ctx.run_id),
        file_type: String::from_str(file_type),
        path,
        extension: String::from_str(extension),
        global_start: start,
        global_end,
        size,
        md5: Some(md5),
        sha256: Some(sha256),
        validated,
        truncated,
        errors,
        pattern_id: Some(hit.pattern_id.clone()),
    };
    Carved { record, data }
}

/// The texts of an error list.
pub open spec fn texts(v: Seq<String>) -> Seq<Seq<char>> {
    v.map_values(|s: String| s@)
}

/// The errors of a length-declared carve: the cap message when the cap cut
/// the file, then the end-of-evidence message when the evidence ended first.
pub open spec fn declared_errors(
    len: int,
    start: int,
    declared: int,
    max_size: int,
    cap_message: Seq<char>,
    eof_message: Seq<char>,
) -> Seq<Seq<char>> {
    (if max_size > 0 && declared > max_size {
        seq![cap_message]
    } else {
        Seq::empty()
    }) + (if capped_len(declared, max_size) > avail(len, start) {
        seq![eof_message]
    } else {
        Seq::empty()
    })
}

/// One error text when truncated, none otherwise.
pub open spec fn errors_if(truncated: bool, message: Seq<char>) -> Seq<Seq<char>> {
    if truncated {
        seq![message]
    } else {
        Seq::empty()
    }
}

/// How many bytes a length-declared file is carved to: what it declares,
/// cut at `max_size` when that is set, and at the end of the evidence.
pub open spec fn capped_len(declared: int, max_size: int) -> int {
    if max_size > 0 && declared > max_size { max_size } else { declared }
}

pub open spec fn declared_size(len: int, start: int, declared: int, max_size: int) -> int {
    let c = capped_len(declared, max_size);
    if c < avail(len, start) { c } else { avail(len, start) }
}

/// A length-declared file is truncated when the cap or the evidence end cut it.
pub open spec fn declared_truncated(len: int, start: int, declared: int, max_size: int) -> bool {
    (max_size > 0 && declared > max_size) || capped_len(declared, max_size) > avail(len, start)
}

/// Carves a file whose total length its header declares. No file comes out
/// when fewer than `min_size` bytes would.
pub fn carve_declared(
    ctx: &ExtractionContext,
    hit: &NormalizedHit,
    file_type: &str,
    extension: &str,
    declared: u64,
    min_size: u64,
    max_size: u64,
    cap_message: &str,
    eof_message: &str,
) -> (r: Option<Carved>)
    ensures
        ({
            let len = ctx.evidence.bytes().len() as int;
            let start = hit.global_offset as int;
            &&& r is None <==> declared_size(len, start, declared as int, max_size as int)
                < min_size
            &&& r matches Some(c) ==> {
                &&& describes(c, ctx.evidence.bytes())
                &&& stamped(c, ctx.run_id@, *hit, file_type@, extension@)
                &&& c.record.size == declared_size(len, start, declared as int, max_size as int)
                &&& c.record.truncated == declared_truncated(
                    len,
                    start,
                    declared as int,
                    max_size as int,
                )
                &&& c.record.validated == !c.record.truncated
                &&& texts(c.record.errors@) == declared_errors(
                    len,
                    start,
                    declared as int,
                    max_size as int,
                    cap_message@,
                    eof_message@,
                )
            }
        }),
{
    let ghost len = ctx.evidence.bytes().len() as int;
    let mut truncated = false;
    let mut errors: Vec<String> = Vec::new();
    let mut want = declared;
    if max_size > 0 && declared > max_size {
        want = max_size;
        truncated = true;
        errors.push(String::from_str(cap_message));
    }
    let ghost first = texts(errors@);
    let (data, eof_truncated) = write_range(ctx.evidence, hit.global_offset, want);
    if eof_truncated {
        truncated = true;
        errors.push(String::from_str(eof_message));
    }
    proof {
        let want_spec = capped_len(declared as int, max_size as int);
        assert(want == want_spec);
        if eof_truncated {
            assert(texts(errors@) =~= first + seq![eof_message@]);
        } else {
            assert(texts(errors@) =~= first + Seq::<Seq<char>>::empty());
        }
        assert(texts(errors@) =~= declared_errors(
            len,
            hit.global_offset as int,
            declared as int,
            max_size as int,
            cap_message@,
            eof_message@,
        ));
    }
    if (data.len() as u64) < min_size {
        return None;
    }
    Some(finish_record(ctx, hit, file_type, extension, data, truncated, !truncated, errors))
}

/// Every carved file's size matches its offsets: `size = end - start + 1`,
/// or `end = start` when nothing was carved; a validated file is not
/// truncated; and its hashes are those of the evidence range it names.
pub proof fn lemma_carved_file_invariants(c: Carved, ev: Seq<u8>)
    requires
        describes(c, ev),
    ensures
        c.record.size > 0 ==> c.record.size == c.record.global_end - c.record.global_start + 1,
        c.record.size == 0 ==> c.record.global_end == c.record.global_start,
        c.record.validated ==> !c.record.truncated,
        c.record.size > 0 ==> c.record.md5->Some_0@ == hex_chars(
            md5_of(ev.subrange(c.record.global_start as int, c.record.global_end + 1)),
        ) && c.record.sha256->Some_0@ == hex_chars(
            sha256_of(ev.subrange(c.record.global_start as int, c.record.global_end + 1)),
        ),
{
}

/// Carving is a function of the evidence: two files carved from the same
/// evidence, start and size have the same bytes and the same hashes.
pub proof fn lemma_carve_repeatable(a: Carved, b: Carved, ev: Seq<u8>)
    requires
        describes(a, ev),
        describes(b, ev),
        a.record.global_start == b.record.global_start,
        a.record.size == b.record.size,
    ensures
        a.data@ == b.data@,
        a.record.md5->Some_0@ == b.record.md5->Some_0@,
        a.record.sha256->Some_0@ == b.record.sha256->Some_0@,
{
    if a.record.size == 0 {
        assert(a.data@ =~= b.data@);
    }
}

/// A length-declared file that runs past the evidence end (and is not cut
/// by the cap first) comes out truncated, with exactly the bytes available.
pub proof fn lemma_declared_past_end(len: int, start: int, declared: int, max_size: int)
    requires
        capped_len(declared, max_size) > avail(len, start),
    ensures
        declared_truncated(len, start, declared, max_size),
        declared_size(len, start, declared, max_size) == avail(len, start),
{
}

/// Streams evidence bytes from a start offset into an output buffer, never
/// past `limit` bytes in total.
pub struct CarveStream<'a> {
    evidence: &'a Evidence,
    start: u64,
    limit: u64,
    data: Vec<u8>,
}

impl<'a> CarveStream<'a> {
    pub closed spec fn spec_evidence(&self) -> Seq<u8> {
        self.evidence.bytes()
    }

    pub closed spec fn spec_start(&self) -> u64 {
        self.start
    }

    pub closed spec fn spec_limit(&self) -> u64 {
        self.limit
    }

    /// The bytes written so far.
    pub closed spec fn written(&self) -> Seq<u8> {
        self.data@
    }

    /// What has been written is a prefix of the evidence from `start`, within the limit.
    pub open spec fn wf(&self) -> bool {
        &&& self.written().len() <= self.spec_limit()
        &&& self.written().len() <= avail(self.spec_evidence().len() as int, self.spec_start() as int)
        &&& self.written() == window(
            self.spec_evidence(),
            self.spec_start() as int,
            self.written().len() as int,
        )
    }

    pub fn new(evidence: &'a Evidence, start: u64, limit: u64) -> (r: Self)
        ensures
            r.wf(),
            r.spec_evidence() == evidence.bytes(),
            r.spec_start() == start,
            r.spec_limit() == limit,
            r.written().len() == 0,
    {
        let s = CarveStream { evidence, start, limit, data: Vec::new() };
        assert(s.written() =~= window(evidence.bytes(), start as int, 0));
        s
    }

    pub fn bytes_written(&self) -> (r: u64)
        requires
            self.wf(),
        ensures
            r == self.written().len(),
    {
        self.data.len() as u64
    }

    /// Reads the next `n` bytes and writes them through. Reads stop at the
    /// limit (then `Truncated`) and at the evidence end (then `Eof`); what was
    /// read before either is kept.
    pub fn read_exact(&mut self, n: u64) -> (r: Result<Vec<u8>, CarveError>)
        requires
            old(self).wf(),
        ensures
            final(self).wf(),
            final(self).spec_evidence() == old(self).spec_evidence(),
            final(self).spec_start() == old(self).spec_start(),
            final(self).spec_limit() == old(self).spec_limit(),
            ({
                let w = old(self).written().len() as int;
                let room = old(self).spec_limit() - w;
                let allowed = if n < room { n as int } else { room };
                let left = avail(
                    old(self).spec_evidence().len() as int,
                    old(self).spec_start() + w,
                );
                let got = if allowed < left { allowed } else { left };
                &&& final(self).written().len() == w + got
                &&& final(self).written() == old(self).written() + window(
                    old(self).spec_evidence(),
                    old(self).spec_start() + w,
                    got,
                )
                &&& got < allowed ==> r is Err && r->Err_0 is Eof
                &&& got == allowed && allowed < n ==> r is Err && r->Err_0 is Truncated
                &&& got == n ==> r is Ok && r->Ok_0@ == window(
                    old(self).spec_evidence(),
                    old(self).spec_start() + w,
                    n as int,
                )
            }),
    {
        let w = self.data.len() as u64;
        let room = self.limit - w;
        let allowed = if n < room {
            n
        } else {
            room
        };
        let pos = self.start.saturating_add(w);
        let ghost exact = (self.start + w) as int;
        let ev_len = self.evidence.len();
        proof {
            if exact > u64::MAX {
                assert(avail(ev_len as int, exact) == 0);
            }
        }
        let chunk = self.evidence.read_at(pos, allowed);
        let got = chunk.len() as u64;
        let ghost before = self.data@;
        let mut i: usize = 0;
        while i < chunk.len()
            invariant
                self.data@ == before + chunk@.subrange(0, i as int),
                i <= chunk@.len(),
                self.evidence == old(self).evidence,
                self.start == old(self).start,
                self.limit == old(self).limit,
            decreases chunk.len() - i,
        {
            self.data.push(chunk[i]);
            i = i + 1;
            assert(self.data@ =~= before + chunk@.subrange(0, i as int));
        }
        proof {
            assert(chunk@.subrange(0, chunk@.len() as int) =~= chunk@);
            let ev = self.evidence.bytes();
            if exact <= ev.len() {
                assert(self.data@ =~= window(ev, self.start as int, self.data@.len() as int));
            } else {
                assert(chunk@.len() == 0);
                assert(self.data@ =~= before);
            }
        }
        if got < allowed {
            Err(CarveError::Eof)
        } else if allowed < n {
            Err(CarveError::Truncated)
        } else {
            Ok(chunk)
        }
    }

    /// Ends the stream, handing over the bytes written.
    pub fn into_bytes(self) -> (r: Vec<u8>)
        ensures
            r@ == self.written(),
    {
        self.data
    }
}

} // verus!
