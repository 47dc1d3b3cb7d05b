//! Signature scanning: every exact occurrence of each configured magic
//! pattern inside a chunk, and where each lies in the whole evidence.
use vstd::prelude::*;

use crate::chunk::ScanChunk;

verus! {

/// A match inside one chunk.
#[derive(Debug, Clone)]
pub struct Hit {
    pub chunk_id: u64,
    pub local_offset: u64,
    pub pattern_id: String,
    pub file_type_id: String,
}

/// A match at an absolute evidence offset.
#[derive(Debug, Clone)]
pub struct NormalizedHit {
    pub global_offset: u64,
    pub file_type_id: String,
    pub pattern_id: String,
}

/// A magic byte pattern and the file type it announces.
#[derive(Debug, Clone)]
pub struct Pattern {
    pub id: String,
    pub file_type_id: String,
    pub bytes: Vec<u8>,
}

/// `pat` occurs in `data` at offset `o`.
pub open spec fn matches_at(data: Seq<u8>, pat: Seq<u8>, o: int) -> bool {
    0 <= o && o + pat.len() <= data.len() && data.subrange(o, o + pat.len()) == pat
}

/// The offsets `>= o` where pattern number `k` occurs, ascending, each paired
/// with `k`. An empty pattern occurs nowhere.
pub open spec fn matches_from(data: Seq<u8>, pat: Seq<u8>, k: int, o: int) -> Seq<(int, int)>
    decreases data.len() - o,
{
    if pat.len() == 0 || o < 0 || o + pat.len() > data.len() {
        Seq::empty()
    } else {
        (if matches_at(data, pat, o) {
            seq![(k, o)]
        } else {
            Seq::empty()
        }) + matches_from(data, pat, k, o + 1)
    }
}

/// All matches of the patterns from number `k` on: pattern by pattern, each
/// pattern's offsets ascending.
pub open spec fn scan_from(data: Seq<u8>, pats: Seq<Pattern>, k: int) -> Seq<(int, int)>
    decreases pats.len() - k,
{
    if k < 0 || k >= pats.len() {
        Seq::empty()
    } else {
        matches_from(data, pats[k].bytes@, k, 0) + scan_from(data, pats, k + 1)
    }
}

pub open spec fn scan_spec(data: Seq<u8>, pats: Seq<Pattern>) -> Seq<(int, int)> {
    scan_from(data, pats, 0)
}

/// `h` reports match `m` (pattern number, offset) of chunk `chunk_id`.
pub open spec fn reports(h: Hit, m: (int, int), pats: Seq<Pattern>, chunk_id: u64) -> bool {
    &&& h.chunk_id == chunk_id
    &&& h.local_offset == m.1
    &&& h.pattern_id@ == pats[m.0].id@
    &&& h.file_type_id@ == pats[m.0].file_type_id@
}

pub(crate) fn matches_here(data: &[u8], pat: &[u8], o: usize) -> (r: bool)
    requires
        o + pat@.len() <= data@.len(),
    ensures
        r == matches_at(data@, pat@, o as int),
{
    let _n = data.len();
    let mut j: usize = 0;
    while j < pat.len()
        invariant
            o + pat@.len() <= data@.len(),
            data@.len() <= usize::MAX,
            j <= pat@.len(),
            forall|t: int| 0 <= t < j ==> data@[o + t] == pat@[t],
        decreases pat.len() - j,
    {
        if data[o + j] != pat[j] {
            assert(data@.subrange(o as int, o + pat@.len())[j as int] != pat@[j as int]);
            return false;
        }
        j = j + 1;
    }
    assert(data@.subrange(o as int, o + pat@.len()) =~= pat@);
    true
}

/// First offset `>= p` at which `pat` occurs in `data`.
pub open spec fn first_match(data: Seq<u8>, pat: Seq<u8>, p: int) -> Option<int>
    decreases data.len() - p,
{
    if pat.len() == 0 || p < 0 || p + pat.len() > data.len() {
        None
    } else if matches_at(data, pat, p) {
        Some(p)
    } else {
        first_match(data, pat, p + 1)
    }
}

/// A first match lies at or after where the search began, and inside the data.
pub proof fn lemma_first_match_bounds(data: Seq<u8>, pat: Seq<u8>, p: int)
    ensures
        first_match(data, pat, p) matches Some(q) ==> p <= q && q + pat.len() <= data.len()
            && matches_at(data, pat, q),
    decreases data.len() - p,
{
    if pat.len() == 0 || p < 0 || p + pat.len() > data.len() {
    } else if matches_at(data, pat, p) {
    } else {
        lemma_first_match_bounds(data, pat, p + 1);
    }
}

/// The first occurrence of a non-empty `pat` in `data` at or after `from`.
pub fn find_from(data: &[u8], pat: &[u8], from: usize) -> (r: Option<usize>)
    ensures
        match first_match(data@, pat@, from as int) {
            None => r is None,
            Some(p) => r == Some(p as usize) && from <= p && p + pat@.len() <= data@.len(),
        },
{
    proof {
        lemma_first_match_bounds(data@, pat@, from as int);
    }
    let fl = pat.len();
    if fl == 0 || fl > data.len() {
        return None;
    }
    let mut p: usize = from;
    while p <= data.len() - fl
        invariant
            fl == pat@.len(),
            0 < fl <= data@.len(),
            from <= p,
            first_match(data@, pat@, from as int) == first_match(data@, pat@, p as int),
        decreases data.len() - p,
    {
        if matches_here(data, pat, p) {
            return Some(p);
        }
        p = p + 1;
    }
    None
}

/// Every occurrence at or after `o` is listed by `matches_from`.
pub proof fn lemma_match_listed(data: Seq<u8>, pat: Seq<u8>, k: int, o: int, q: int)
    requires
        pat.len() > 0,
        0 <= o <= q,
        matches_at(data, pat, q),
    ensures
        matches_from(data, pat, k, o).contains((k, q)),
    decreases q - o,
{
    let rest = matches_from(data, pat, k, o + 1);
    let head: Seq<(int, int)> = if matches_at(data, pat, o) {
        seq![(k, o)]
    } else {
        Seq::empty()
    };
    assert(matches_from(data, pat, k, o) == head + rest);
    if o == q {
        assert((head + rest)[0] == (k, q));
    } else {
        lemma_match_listed(data, pat, k, o + 1, q);
        let t = choose|t: int| 0 <= t < rest.len() && rest[t] == (k, q);
        assert((head + rest)[head.len() + t] == (k, q));
    }
}

/// Every occurrence of pattern `k` is listed by the scan of the patterns from `k0` on.
pub proof fn lemma_scan_lists(data: Seq<u8>, pats: Seq<Pattern>, k0: int, k: int, q: int)
    requires
        0 <= k0 <= k < pats.len(),
        pats[k].bytes@.len() > 0,
        matches_at(data, pats[k].bytes@, q),
    ensures
        scan_from(data, pats, k0).contains((k, q)),
    decreases k - k0,
{
    let here = matches_from(data, pats[k0].bytes@, k0, 0);
    let rest = scan_from(data, pats, k0 + 1);
    assert(scan_from(data, pats, k0) == here + rest);
    if k0 == k {
        lemma_match_listed(data, pats[k].bytes@, k, 0, q);
        let t = choose|t: int| 0 <= t < here.len() && here[t] == (k, q);
        assert((here + rest)[t] == (k, q));
    } else {
        lemma_scan_lists(data, pats, k0 + 1, k, q);
        let t = choose|t: int| 0 <= t < rest.len() && rest[t] == (k, q);
        assert((here + rest)[here.len() + t] == (k, q));
    }
}

/// A CPU multi-pattern matcher.
pub struct SignatureScanner {
    patterns: Vec<Pattern>,
}

impl SignatureScanner {
    pub closed spec fn spec_patterns(&self) -> Seq<Pattern> {
        self.patterns@
    }

    pub fn new(patterns: Vec<Pattern>) -> (r: Self)
        ensures
            r.spec_patterns() == patterns@,
    {
        SignatureScanner { patterns }
    }

    pub fn pattern_count(&self) -> (r: usize)
        ensures
            r == self.spec_patterns().len(),
    {
        self.patterns.len()
    }

    /// Every occurrence of every pattern in `data`, pattern by pattern in
    /// configuration order, offsets ascending within a pattern.
    pub fn scan_chunk(&self, chunk: &ScanChunk, data: &[u8]) -> (r: Vec<Hit>)
        ensures
            r@.len() == scan_spec(data@, self.spec_patterns()).len(),
            forall|i: int|
                0 <= i < r@.len() ==> reports(
                    #[trigger] r@[i],
                    scan_spec(data@, self.spec_patterns())[i],
                    self.spec_patterns(),
                    chunk.id,
                ),
    {
        let pats = &self.patterns;
        let mut hits: Vec<Hit> = Vec::new();
        let ghost mut acc: Seq<(int, int)> = Seq::empty();
        let mut k: usize = 0;
        while k < pats.len()
            invariant
                k <= pats@.len(),
                pats@ == self.spec_patterns(),
                acc + scan_from(data@, pats@, k as int) == scan_spec(data@, pats@),
                hits@.len() == acc.len(),
                forall|i: int|
                    0 <= i < hits@.len() ==> reports(#[trigger] hits@[i], acc[i], pats@, chunk.id),
            decreases pats.len() - k,
        {
            let pat = &pats[k];
            let plen = pat.bytes.len();
            let ghost before_k = acc;
            proof {
                assert(scan_from(data@, pats@, k as int) == matches_from(data@, pat.bytes@, k as int, 0)
                    + scan_from(data@, pats@, k + 1));
            }
            if 0 < plen && plen <= data.len() {
                let last = data.len() - plen;
                let mut o: usize = 0;
                while o <= last
                    invariant
                        k < pats@.len(),
                        pat == pats@[k as int],
                        plen == pat.bytes@.len(),
                        plen > 0,
                        last + plen == data@.len(),
                        data@.len() <= usize::MAX,
                        o <= last + 1,
                        acc + matches_from(data@, pat.bytes@, k as int, o as int) == before_k
                            + matches_from(data@, pat.bytes@, k as int, 0),
                        hits@.len() == acc.len(),
                        forall|i: int|
                            0 <= i < hits@.len() ==> reports(#[trigger] hits@[i], acc[i], pats@, chunk.id),
                    decreases last + 1 - o,
                {
                    let ghost prev = acc;
                    if matches_here(data, pat.bytes.as_slice(), o) {
                        hits.push(
                            Hit {
                                chunk_id: chunk.id,
                                local_offset: o as u64,
                                pattern_id: pat.id.clone(),
                                file_type_id: pat.file_type_id.clone(),
                            },
                        );
                        proof {
                            acc = acc.push((k as int, o as int));
                            assert(hits@[hits@.len() - 1].local_offset == o);
                        }
                    }
                    proof {
                        assert(matches_from(data@, pat.bytes@, k as int, o as int) == (if matches_at(
                            data@,
                            pat.bytes@,
                            o as int,
                        ) {
                            seq![(k as int, o as int)]
                        } else {
                            Seq::empty()
                        }) + matches_from(data@, pat.bytes@, k as int, o + 1));
                        if matches_at(data@, pat.bytes@, o as int) {
                            assert(acc + matches_from(data@, pat.bytes@, k as int, o + 1) =~= prev
                                + matches_from(data@, pat.bytes@, k as int, o as int));
                        } else {
                            assert(acc + matches_from(data@, pat.bytes@, k as int, o + 1) =~= prev
                                + matches_from(data@, pat.bytes@, k as int, o as int));
                        }
                    }
                    o = o + 1;
                }
                proof {
                    assert(matches_from(data@, pat.bytes@, k as int, o as int) =~= Seq::empty());
                    assert(acc =~= before_k + matches_from(data@, pat.bytes@, k as int, 0));
                }
            } else {
                proof {
                    assert(matches_from(data@, pat.bytes@, k as int, 0) =~= Seq::empty());
                    assert(acc =~= before_k + matches_from(data@, pat.bytes@, k as int, 0));
                }
            }
            proof {
                assert(acc + scan_from(data@, pats@, k + 1) =~= before_k + scan_from(
                    data@,
                    pats@,
                    k as int,
                ));
            }
            k = k + 1;
        }
        proof {
            assert(acc + scan_from(data@, pats@, k as int) =~= acc);
        }
        hits
    }
}

/// The absolute evidence offset of a chunk-local hit.
pub fn normalize_hit(chunk: &ScanChunk, hit: &Hit) -> (r: Option<NormalizedHit>)
    ensures
        r is None <==> chunk.start + hit.local_offset > u64::MAX,
        r matches Some(n) ==> n.global_offset == chunk.start + hit.local_offset
            && n.file_type_id@ == hit.file_type_id@ && n.pattern_id@ == hit.pattern_id@,
{
    match chunk.start.checked_add(hit.local_offset) {
        None => None,
        Some(global_offset) => Some(
            NormalizedHit {
                global_offset,
                file_type_id: hit.file_type_id.clone(),
                pattern_id: hit.pattern_id.clone(),
            },
        ),
    }
}

} // verus!
