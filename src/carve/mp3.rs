//! MP3 (MPEG audio layer III): an optional ID3v2 tag, then a run of frames
//! whose headers give each frame's length. The file ends after the last
//! frame whose header is valid.
use vstd::prelude::*;
use vstd::string::*;

use crate::carve::footer::search_limit;
use crate::carve::{describes, finish_record, stamped, Carved, CarveError, ExtractionContext, texts, errors_if};
use crate::evidence::window;
use crate::scanner::NormalizedHit;

verus! {

/// Layer III bitrates in kbit/s for MPEG-1, by bitrate index (0 and 15 invalid).
pub open spec fn v1_bitrates() -> Seq<u32> {
    seq![0u32, 32, 40, 48, 56, 64, 80, 96, 112, 128, 160, 192, 224, 256, 320, 0]
}

/// Layer III bitrates in kbit/s for MPEG-2 and 2.5.
pub open spec fn v2_bitrates() -> Seq<u32> {
    seq![0u32, 8, 16, 24, 32, 40, 48, 56, 64, 80, 96, 112, 128, 144, 160, 0]
}

/// Sample rates in Hz by version bits (0: MPEG-2.5, 2: MPEG-2, 3: MPEG-1) and index.
pub open spec fn sample_rate(version: int, idx: int) -> int {
    let base = if idx == 0 { 44100int } else if idx == 1 { 48000 } else { 32000 };
    if version == 3 { base } else if version == 2 { base / 2 } else { base / 4 }
}

/// Length of the layer III frame whose header starts at `p`, if the four
/// bytes there are a valid header.
pub open spec fn frame_len(d: Seq<u8>, p: int) -> Option<int> {
    if p < 0 || p + 4 > d.len() || d[p] != 0xFF || d[p + 1] < 0xE0 {
        None
    } else {
        let version = (d[p + 1] / 8) % 4;
        let layer = (d[p + 1] / 2) % 4;
        let br_idx = d[p + 2] / 16;
        let sr_idx = (d[p + 2] / 4) % 4;
        let pad = (d[p + 2] / 2) % 2;
        if version == 1 || layer != 1 || br_idx == 0 || br_idx == 15 || sr_idx == 3 {
            None
        } else if version == 3 {
            Some(144000 * v1_bitrates()[br_idx as int] / sample_rate(version as int, sr_idx as int) + pad)
        } else {
            Some(72000 * v2_bitrates()[br_idx as int] / sample_rate(version as int, sr_idx as int) + pad)
        }
    }
}

/// Where the run of frames from `p` ends, and how many frames it holds.
pub open spec fn walk_frames(d: Seq<u8>, p: int, n: int) -> (int, int)
    decreases if p < d.len() { d.len() - p } else { 0 },
{
    if p < 0 || p >= d.len() {
        (p, n)
    } else {
        match frame_len(d, p) {
            None => (p, n),
            Some(l) => if l <= 0 { (p, n) } else { walk_frames(d, p + l, n + 1) },
        }
    }
}

/// Bytes of a leading ID3v2 tag, 0 when there is none.
pub open spec fn id3_len(d: Seq<u8>) -> int {
    if d.len() >= 10 && d[0] == 0x49 && d[1] == 0x44 && d[2] == 0x33 && d[6] < 0x80 && d[7] < 0x80
        && d[8] < 0x80 && d[9] < 0x80 {
        10 + d[6] * 2097152 + d[7] * 16384 + d[8] * 128 + d[9]
    } else {
        0
    }
}

/// Frames needed to accept a candidate: two without a tag, one after a tag.
pub open spec fn frames_needed(d: Seq<u8>) -> int {
    if id3_len(d) > 0 { 1 } else { 2 }
}

/// The stream's end (possibly past `d`) if enough frames were found.
pub open spec fn mp3_end(d: Seq<u8>) -> Option<int> {
    let w = walk_frames(d, id3_len(d), 0);
    if w.1 >= frames_needed(d) { Some(w.0) } else { None }
}

proof fn lemma_frame_bounds(num: int, sr: int)
    requires
        48000 * 5 <= num <= 144000 * 320,
        8000 <= sr <= 48000,
        num <= 1440 * sr,
    ensures
        1 <= num / sr <= 1440,
{
    assert(num / sr >= 1) by (nonlinear_arith)
        requires
            num >= sr,
            sr > 0,
    ;
    assert(num / sr <= 1440) by (nonlinear_arith)
        requires
            num <= 1440 * sr,
            sr > 0,
    ;
}

fn frame_len_at(d: &[u8], p: usize) -> (r: Option<u64>)
    ensures
        match frame_len(d@, p as int) {
            None => r is None,
            Some(l) => r == Some(l as u64) && 0 < l <= 2000,
        },
{
    let n = d.len();
    if p >= n || n - p < 4 || d[p] != 0xFF || d[p + 1] < 0xE0 {
        return None;
    }
    let version = (d[p + 1] / 8) % 4;
    let layer = (d[p + 1] / 2) % 4;
    let br_idx = (d[p + 2] / 16) as usize;
    let sr_idx = (d[p + 2] / 4) % 4;
    let pad = ((d[p + 2] / 2) % 2) as u64;
    if version == 1 || layer != 1 || br_idx == 0 || br_idx == 15 || sr_idx == 3 {
        return None;
    }
    let base: u64 = if sr_idx == 0 {
        44100
    } else if sr_idx == 1 {
        48000
    } else {
        32000
    };
    let sr: u64 = if version == 3 {
        base
    } else if version == 2 {
        base / 2
    } else {
        base / 4
    };
    if version == 3 {
        let table: Vec<u32> = vec![0, 32, 40, 48, 56, 64, 80, 96, 112, 128, 160, 192, 224, 256, 320, 0];
        assert(table@ =~= v1_bitrates());
        let br = table[br_idx] as u64;
        assert(br >= 32 && br <= 320);
        let l = 144000 * br / sr + pad;
        proof {
            lemma_frame_bounds(144000 * br as int, sr as int);
        }
        Some(l)
    } else {
        let table: Vec<u32> = vec![0, 8, 16, 24, 32, 40, 48, 56, 64, 80, 96, 112, 128, 144, 160, 0];
        assert(table@ =~= v2_bitrates());
        let br = table[br_idx] as u64;
        assert(br >= 8 && br <= 160);
        let l = 72000 * br / sr + pad;
        proof {
            lemma_frame_bounds(72000 * br as int, sr as int);
        }
        Some(l)
    }
}

pub struct Mp3CarveHandler {
    extension: String,
    min_size: u64,
    max_size: u64,
}

impl Mp3CarveHandler {
    pub closed spec fn spec_extension(&self) -> Seq<char> {
        self.extension@
    }

    pub closed spec fn spec_min_size(&self) -> u64 {
        self.min_size
    }

    pub closed spec fn spec_max_size(&self) -> u64 {
        self.max_size
    }

    pub fn new(extension: String, min_size: u64, max_size: u64) -> (r: Self)
        ensures
            r.spec_extension() == extension@,
            r.spec_min_size() == min_size,
            r.spec_max_size() == max_size,
    {
        Mp3CarveHandler { extension, min_size, max_size }
    }

    pub fn file_type(&self) -> (r: &'static str)
        ensures
            r@ == "mp3"@,
    {
        "mp3"
    }

    pub fn extension(&self) -> (r: &str)
        ensures
            r@ == self.spec_extension(),
    {
        self.extension.as_str()
    }

    /// What `process_hit` returns for `hit` in `ctx`.
    pub open spec fn outcome(
        &self,
        hit: &NormalizedHit,
        ctx: &ExtractionContext,
        r: Result<Option<Carved>, CarveError>,
    ) -> bool {
        let ev = ctx.evidence.bytes();
        let start = hit.global_offset as int;
        let data = window(
            ev,
            start,
            search_limit(ev.len() as int, start, self.spec_max_size() as int),
        );
        let end = mp3_end(data);
        let size = if end->Some_0 < data.len() { end->Some_0 } else { data.len() as int };
        &&& r is Ok
        &&& r->Ok_0 is None <==> (end is None || size < self.spec_min_size())
        &&& r->Ok_0 matches Some(c) ==> {
            &&& describes(c, ev)
            &&& stamped(c, ctx.run_id@, *hit, "mp3"@, self.spec_extension())
            &&& c.record.size == size
            &&& c.record.truncated == (end->Some_0 > data.len())
            &&& c.record.validated == !c.record.truncated
            &&& texts(c.record.errors@) == errors_if(c.record.truncated, "last frame runs past the end of the scanned bytes"@)
        }
    }

    /// Carves the tag and the run of frames at the hit. A run that goes past
    /// what could be scanned (cap or evidence end) is emitted truncated. Too
    /// few frames, or a file under `min_size`, gives no file.
    pub fn process_hit(&self, hit: &NormalizedHit, ctx: &ExtractionContext) -> (r: Result<
        Option<Carved>,
        CarveError,
    >)
        ensures
            self.outcome(hit, ctx, r),
    {
        let len = ctx.evidence.len();
        let start = hit.global_offset;
        let room = if start < len {
            len - start
        } else {
            0
        };
        let limit = if self.max_size > 0 && self.max_size < room {
            self.max_size
        } else {
            room
        };
        let data = ctx.evidence.read_at(start, limit);
        let n = data.len();
        let tag: u64 = if n >= 10 && data[0] == 0x49 && data[1] == 0x44 && data[2] == 0x33 && data[6]
            < 0x80 && data[7] < 0x80 && data[8] < 0x80 && data[9] < 0x80 {
            10 + data[6] as u64 * 2097152 + data[7] as u64 * 16384 + data[8] as u64 * 128
                + data[9] as u64
        } else {
            0
        };
        let needed: u64 = if tag > 0 {
            1
        } else {
            2
        };
        let mut pos: u128 = tag as u128;
        let mut frames: u128 = 0;
        while pos < n as u128
            invariant
                n == data@.len(),
                frames <= pos,
                pos <= n + 0x1_0000_0000,
                n <= usize::MAX,
                walk_frames(data@, pos as int, frames as int) == walk_frames(data@, tag as int, 0),
            ensures
                walk_frames(data@, pos as int, frames as int) == (pos as int, frames as int),
            decreases n + 0x1_0000_0000 - pos,
        {
            match frame_len_at(data.as_slice(), pos as usize) {
                None => break,
                Some(l) => {
                    pos = pos + l as u128;
                    frames = frames + 1;
                },
            }
        }
        if frames < needed as u128 {
            return Ok(None);
        }
        let complete = pos <= n as u128;
        let size: usize = if complete {
            pos as usize
        } else {
            n
        };
        if (size as u64) < self.min_size {
            return Ok(None);
        }
        let mut out: Vec<u8> = Vec::new();
        let mut i: usize = 0;
        while i < size
            invariant
                size <= data@.len(),
                i <= size,
                out@ == data@.subrange(0, i as int),
            decreases size - i,
        {
            out.push(data[i]);
            i = i + 1;
            assert(out@ =~= data@.subrange(0, i as int));
        }
        let mut errors: Vec<String> = Vec::new();
        if !complete {
            errors.push(String::from_str("last frame runs past the end of the scanned bytes"));
        }
        assert(texts(errors@) =~= errors_if(!complete, "last frame runs past the end of the scanned bytes"@));
        assert(out@ =~= window(ctx.evidence.bytes(), start as int, size as int));
        Ok(
            Some(
                finish_record(
                    ctx,
                    hit,
                    "mp3",
                    self.extension.as_str(),
                    out,
                    !complete,
                    complete,
                    errors,
                ),
            ),
        )
    }
}

} // verus!
