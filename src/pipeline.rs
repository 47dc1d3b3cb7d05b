//! Pipeline decisions: which chunks are read, which hits are carved, and the
//! run counters. The threads and queues that drive these live with the caller.
use std::collections::HashMap;
use vstd::prelude::*;

use crate::carve::registry::CarveRegistry;
use crate::carve::{Carved, CarveError, ExtractionContext};
use crate::chunk::{chunk_plan, lemma_overlap_covers, ScanChunk};
use crate::evidence::{window, Evidence};
use crate::limiter::CarveLimiter;
use crate::scanner::{lemma_scan_lists, matches_at, scan_spec, NormalizedHit, Pattern};

verus! {

broadcast use vstd::std_specs::hash::group_hash_axioms;

/// Counters reported at the end of a run.
#[derive(Debug, Clone, Copy, PartialEq, Eq, Structural)]
pub struct PipelineStats {
    pub bytes_scanned: u64,
    pub chunks_processed: u64,
    pub hits_found: u64,
    pub files_carved: u64,
    pub string_spans: u64,
    pub artefacts_extracted: u64,
}

/// Reads at most `max_len` bytes of a chunk, from its start.
pub fn read_chunk_limited(evidence: &Evidence, chunk: &ScanChunk, max_len: u64) -> (r: Vec<u8>)
    ensures
        r@ == window(evidence.bytes(), chunk.start as int, max_len as int),
{
    evidence.read_at(chunk.start, max_len)
}

/// The dispatcher's caps and progress: chunks go out in plan order until
/// `max_bytes` bytes or `max_chunks` chunks have been read.
pub struct Dispatcher {
    max_bytes: u64,
    max_chunks: u64,
    bytes_scanned: u64,
    chunks_seen: u64,
}

impl Dispatcher {
    pub closed spec fn spec_max_bytes(&self) -> u64 {
        self.max_bytes
    }

    pub closed spec fn spec_max_chunks(&self) -> u64 {
        self.max_chunks
    }

    pub closed spec fn spec_bytes_scanned(&self) -> u64 {
        self.bytes_scanned
    }

    pub closed spec fn spec_chunks_seen(&self) -> u64 {
        self.chunks_seen
    }

    /// Progress never passes the caps.
    pub open spec fn wf(&self) -> bool {
        self.spec_bytes_scanned() <= self.spec_max_bytes() && self.spec_chunks_seen()
            <= self.spec_max_chunks()
    }

    /// A missing cap means no cap.
    pub fn new(max_bytes: Option<u64>, max_chunks: Option<u64>) -> (r: Self)
        ensures
            r.wf(),
            r.spec_max_bytes() == match max_bytes {
                Some(b) => b,
                None => u64::MAX,
            },
            r.spec_max_chunks() == match max_chunks {
                Some(c) => c,
                None => u64::MAX,
            },
            r.spec_bytes_scanned() == 0,
            r.spec_chunks_seen() == 0,
    {
        Dispatcher {
            max_bytes: match max_bytes {
                Some(b) => b,
                None => u64::MAX,
            },
            max_chunks: match max_chunks {
                Some(c) => c,
                None => u64::MAX,
            },
            bytes_scanned: 0,
            chunks_seen: 0,
        }
    }

    /// How many bytes of `chunk` to read next, or `None` once a cap is reached.
    pub fn next_read_len(&self, chunk: &ScanChunk) -> (r: Option<u64>)
        requires
            self.wf(),
        ensures
            r is None <==> (self.spec_chunks_seen() >= self.spec_max_chunks()
                || self.spec_bytes_scanned() >= self.spec_max_bytes()),
            r matches Some(n) ==> n == if self.spec_max_bytes() - self.spec_bytes_scanned()
                < chunk.length {
                self.spec_max_bytes() - self.spec_bytes_scanned()
            } else {
                chunk.length as int
            },
    {
        if self.chunks_seen >= self.max_chunks || self.bytes_scanned >= self.max_bytes {
            return None;
        }
        let room = self.max_bytes - self.bytes_scanned;
        Some(
            if room < chunk.length {
                room
            } else {
                chunk.length
            },
        )
    }

    /// Counts a chunk of which `got` bytes were read and handed on.
    pub fn record(&mut self, got: u64)
        requires
            old(self).wf(),
            old(self).spec_chunks_seen() < old(self).spec_max_chunks(),
            old(self).spec_bytes_scanned() + got <= old(self).spec_max_bytes(),
        ensures
            final(self).wf(),
            final(self).spec_max_bytes() == old(self).spec_max_bytes(),
            final(self).spec_max_chunks() == old(self).spec_max_chunks(),
            final(self).spec_bytes_scanned() == old(self).spec_bytes_scanned() + got,
            final(self).spec_chunks_seen() == old(self).spec_chunks_seen() + 1,
    {
        self.bytes_scanned = self.bytes_scanned + got;
        self.chunks_seen = self.chunks_seen + 1;
    }

    pub fn bytes_scanned(&self) -> (r: u64)
        ensures
            r == self.spec_bytes_scanned(),
    {
        self.bytes_scanned
    }

    pub fn chunks_processed(&self) -> (r: u64)
        ensures
            r == self.spec_chunks_seen(),
    {
        self.chunks_seen
    }
}

/// A scan window and the evidence bytes read for it.
pub struct ScanJob {
    pub chunk: ScanChunk,
    pub data: Vec<u8>,
}

/// How many bytes of `chunk` the dispatcher may read: the chunk's length,
/// cut at what the byte cap leaves.
pub open spec fn read_len(d: Dispatcher, chunk: ScanChunk) -> int {
    let room = d.spec_max_bytes() - d.spec_bytes_scanned();
    if room < chunk.length { room } else { chunk.length as int }
}

/// The dispatcher has reached a cap.
pub open spec fn capped(d: Dispatcher) -> bool {
    d.spec_chunks_seen() >= d.spec_max_chunks() || d.spec_bytes_scanned() >= d.spec_max_bytes()
}

/// Reads the next job for the dispatcher: `None` when a cap is reached or
/// nothing could be read, else the chunk's bytes (cut at the byte cap), counted.
pub fn dispatch_chunk(d: &mut Dispatcher, evidence: &Evidence, chunk: &ScanChunk) -> (r: Option<ScanJob>)
    requires
        old(d).wf(),
    ensures
        final(d).wf(),
        r is None <==> (capped(*old(d)) || window(
            evidence.bytes(),
            chunk.start as int,
            read_len(*old(d), *chunk),
        ).len() == 0),
        r matches Some(job) ==> job.chunk == *chunk && job.data@ == window(
            evidence.bytes(),
            chunk.start as int,
            read_len(*old(d), *chunk),
        ) && final(d).spec_bytes_scanned() == old(d).spec_bytes_scanned() + job.data@.len()
            && final(d).spec_chunks_seen() == old(d).spec_chunks_seen() + 1
            && final(d).spec_max_bytes() == old(d).spec_max_bytes()
            && final(d).spec_max_chunks() == old(d).spec_max_chunks(),
        r is None ==> *final(d) == *old(d),
{
    match d.next_read_len(chunk) {
        None => None,
        Some(n) => {
            let data = read_chunk_limited(evidence, chunk, n);
            if data.len() == 0 {
                return None;
            }
            d.record(data.len() as u64);
            Some(ScanJob { chunk: *chunk, data })
        },
    }
}

/// A dedup key: absolute offset and file-type id.
pub type HitKey = (u64, Seq<char>);

/// Keys of the hits already carved or in progress.
pub struct OverlapDedup {
    seen: HashMap<u64, Vec<String>>,
}

impl OverlapDedup {
    pub closed spec fn has(&self, offset: u64, file_type: Seq<char>) -> bool {
        self.seen@.contains_key(offset) && exists|i: int|
            0 <= i < self.seen@[offset]@.len() && #[trigger] self.seen@[offset]@[i]@ == file_type
    }

    pub open spec fn keys(&self) -> Set<HitKey> {
        Set::new(|k: HitKey| self.has(k.0, k.1))
    }

    pub fn new() -> (r: Self)
        ensures
            r.keys() == Set::<HitKey>::empty(),
    {
        let r = OverlapDedup { seen: HashMap::new() };
        assert(r.keys() =~= Set::<HitKey>::empty());
        r
    }

    /// Whether the key was recorded before.
    pub fn contains(&self, offset: u64, file_type: &String) -> (r: bool)
        ensures
            r == self.keys().contains((offset, file_type@)),
    {
        match self.seen.get(&offset) {
            None => false,
            Some(list) => {
                let mut i: usize = 0;
                while i < list.len()
                    invariant
                        self.seen@.contains_key(offset),
                        list@ == self.seen@[offset]@,
                        i <= list@.len(),
                        forall|j: int| 0 <= j < i ==> list@[j]@ != file_type@,
                    decreases list.len() - i,
                {
                    if list[i] == *file_type {
                        assert(self.seen@[offset]@[i as int]@ == file_type@);
                        return true;
                    }
                    i = i + 1;
                }
                proof {
                    if self.has(offset, file_type@) {
                        let j = choose|j: int|
                            0 <= j < self.seen@[offset]@.len() && #[trigger] self.seen@[offset]@[j]@
                                == file_type@;
                        assert(list@[j]@ == file_type@);
                    }
                }
                false
            },
        }
    }

    /// Records the key and tells whether it was new.
    pub fn check_and_insert(&mut self, offset: u64, file_type: &String) -> (r: bool)
        ensures
            r == !old(self).keys().contains((offset, file_type@)),
            final(self).keys() == old(self).keys().insert((offset, file_type@)),
    {
        if self.contains(offset, file_type) {
            proof {
                assert(self.keys() =~= old(self).keys().insert((offset, file_type@)));
            }
            return false;
        }
        let ghost old_map = self.seen@;
        let mut list = match self.seen.remove(&offset) {
            Some(v) => v,
            None => Vec::new(),
        };
        let ghost old_list: Seq<String> = if old_map.contains_key(offset) {
            old_map[offset]@
        } else {
            Seq::empty()
        };
        assert(list@ == old_list);
        list.push(file_type.clone());
        self.seen.insert(offset, list);
        proof {
            let nl = self.seen@[offset]@;
            assert(nl == old_list.push(*file_type));
            assert forall|k: HitKey| #[trigger] self.keys().contains(k) == old(self).keys().insert(
                (offset, file_type@),
            ).contains(k) by {
                if k.0 == offset {
                    if self.has(k.0, k.1) {
                        let j = choose|j: int| 0 <= j < nl.len() && #[trigger] nl[j]@ == k.1;
                        if j < old_list.len() {
                            assert(old_map[offset]@[j]@ == k.1);
                        }
                    }
                    if old(self).has(k.0, k.1) {
                        let j = choose|j: int|
                            0 <= j < old_map[offset]@.len() && #[trigger] old_map[offset]@[j]@ == k.1;
                        assert(nl[j]@ == k.1);
                    }
                    if k.1 == file_type@ {
                        assert(nl[old_list.len() as int]@ == file_type@);
                    }
                } else {
                    assert(self.seen@.contains_key(k.0) == old_map.contains_key(k.0));
                    if old_map.contains_key(k.0) {
                        assert(self.seen@[k.0] == old_map[k.0]);
                    }
                }
            }
            assert(self.keys() =~= old(self).keys().insert((offset, file_type@)));
        }
        true
    }
}

/// Permission to carve one hit: handed out by `try_begin`, taken back by `complete`.
pub struct Ticket {
    global_offset: u64,
    file_type_id: String,
}

impl Ticket {
    pub open spec fn key(&self) -> HitKey {
        (self.spec_offset(), self.spec_file_type())
    }

    pub closed spec fn spec_offset(&self) -> u64 {
        self.global_offset
    }

    pub closed spec fn spec_file_type(&self) -> Seq<char> {
        self.file_type_id@
    }

    pub fn global_offset(&self) -> (r: u64)
        ensures
            r == self.spec_offset(),
    {
        self.global_offset
    }
}

pub enum Admission {
    /// The same offset and file type was already carved or is in progress.
    Duplicate,
    /// The carve limit does not allow another file.
    LimitReached,
    Admitted(Ticket),
}

/// Carve bookkeeping shared by the carve workers: overlap dedup, the carve
/// limiter, and the count of files carved.
pub struct CarveCoordinator {
    dedup: OverlapDedup,
    limiter: CarveLimiter,
    files_carved: u64,
    emitted: Ghost<Seq<HitKey>>,
    in_flight: Ghost<Set<HitKey>>,
}

impl CarveCoordinator {
    pub closed spec fn spec_dedup(&self) -> OverlapDedup {
        self.dedup
    }

    pub closed spec fn spec_limiter(&self) -> CarveLimiter {
        self.limiter
    }

    pub closed spec fn spec_files_carved(&self) -> u64 {
        self.files_carved
    }

    /// Keys of the hits whose files were emitted, in emission order.
    pub closed spec fn emitted(&self) -> Seq<HitKey> {
        self.emitted@
    }

    /// Keys of the hits admitted and not yet completed.
    pub closed spec fn in_flight(&self) -> Set<HitKey> {
        self.in_flight@
    }

    pub open spec fn wf(&self) -> bool {
        &&& self.spec_limiter().wf()
        &&& self.spec_files_carved() == self.spec_limiter().spec_carved()
        &&& self.spec_files_carved() == self.emitted().len()
        &&& self.emitted().no_duplicates()
        &&& self.in_flight().finite()
        &&& forall|i: int|
            0 <= i < self.emitted().len() ==> self.spec_dedup().keys().contains(
                #[trigger] self.emitted()[i],
            ) && !self.in_flight().contains(self.emitted()[i])
        &&& forall|k: HitKey| #[trigger]
            self.in_flight().contains(k) ==> self.spec_dedup().keys().contains(k)
        &&& self.spec_limiter().spec_limit() is Some ==> self.in_flight().len()
            == self.spec_limiter().spec_reserved()
    }

    pub fn new(max_files: Option<u64>) -> (r: Self)
        ensures
            r.wf(),
            r.spec_limiter().spec_limit() == max_files,
            r.spec_files_carved() == 0,
            r.in_flight() == Set::<HitKey>::empty(),
    {
        CarveCoordinator {
            dedup: OverlapDedup::new(),
            limiter: CarveLimiter::new(max_files),
            files_carved: 0,
            emitted: Ghost(Seq::empty()),
            in_flight: Ghost(Set::empty()),
        }
    }

    pub fn files_carved(&self) -> (r: u64)
        ensures
            r == self.spec_files_carved(),
    {
        self.files_carved
    }

    /// Whether the carve limit has been reached.
    pub fn should_stop(&self) -> (r: bool)
        ensures
            r == match self.spec_limiter().spec_limit() {
                Some(k) => self.spec_limiter().spec_carved() >= k,
                None => false,
            },
    {
        self.limiter.should_stop()
    }

    /// Dedup, then reserve: a hit is admitted only when its key is new and
    /// the limiter grants a slot. A new key is remembered either way.
    pub fn try_begin(&mut self, hit: &NormalizedHit) -> (r: Admission)
        requires
            old(self).wf(),
        ensures
            final(self).wf(),
            final(self).spec_files_carved() == old(self).spec_files_carved(),
            final(self).emitted() == old(self).emitted(),
            final(self).spec_limiter().spec_limit() == old(self).spec_limiter().spec_limit(),
            final(self).spec_dedup().keys() == old(self).spec_dedup().keys().insert(
                (hit.global_offset, hit.file_type_id@),
            ),
            ({
                let key = (hit.global_offset, hit.file_type_id@);
                &&& r is Duplicate <==> old(self).spec_dedup().keys().contains(key)
                &&& r is LimitReached ==> match old(self).spec_limiter().spec_limit() {
                    Some(k) => old(self).spec_limiter().spec_carved()
                        + old(self).spec_limiter().spec_reserved() >= k,
                    None => false,
                }
                &&& r matches Admission::Admitted(t) ==> (t.key() == key
                    && final(self).in_flight() == old(self).in_flight().insert(key))
                &&& !(r is Admitted) ==> final(self).in_flight() == old(self).in_flight()
            }),
    {
        let ghost key = (hit.global_offset, hit.file_type_id@);
        if !self.dedup.check_and_insert(hit.global_offset, &hit.file_type_id) {
            proof {
                assert(self.dedup.keys() =~= old(self).dedup.keys());
            }
            return Admission::Duplicate;
        }
        if !self.limiter.try_reserve() {
            return Admission::LimitReached;
        }
        proof {
            assert(!old(self).in_flight().contains(key));
            self.in_flight@ = self.in_flight@.insert(key);
        }
        Admission::Admitted(
            Ticket { global_offset: hit.global_offset, file_type_id: hit.file_type_id.clone() },
        )
    }

    /// Takes a ticket back with the handler's result. A carved file is
    /// committed and handed back for the metadata queue; no file, or a
    /// failure, releases the reservation.
    pub fn complete(&mut self, ticket: Ticket, result: Result<Option<Carved>, CarveError>) -> (r:
        Option<Carved>)
        requires
            old(self).wf(),
            old(self).in_flight().contains(ticket.key()),
            old(self).spec_files_carved() < u64::MAX,
        ensures
            final(self).wf(),
            final(self).spec_limiter().spec_limit() == old(self).spec_limiter().spec_limit(),
            final(self).in_flight() == old(self).in_flight().remove(ticket.key()),
            r == match result {
                Ok(Some(c)) => Some(c),
                _ => None,
            },
            r is Some ==> final(self).spec_files_carved() == old(self).spec_files_carved() + 1
                && final(self).emitted() == old(self).emitted().push(ticket.key()),
            r is None ==> final(self).spec_files_carved() == old(self).spec_files_carved()
                && final(self).emitted() == old(self).emitted(),
    {
        let ghost key = ticket.key();
        proof {
            if self.limiter.spec_limit() is Some {
                assert(self.in_flight@.len() > 0) by {
                    vstd::set_lib::lemma_set_empty_equivalency_len(self.in_flight@);
                }
            }
            self.in_flight@ = self.in_flight@.remove(key);
        }
        match result {
            Ok(Some(c)) => {
                self.limiter.commit();
                self.files_carved = self.files_carved + 1;
                proof {
                    assert(forall|i: int| 0 <= i < old(self).emitted().len() ==> old(self).emitted()[i] != key);
                    self.emitted@ = self.emitted@.push(key);
                    assert forall|i: int| 0 <= i < self.emitted@.len() implies self.dedup.keys().contains(
                        #[trigger] self.emitted@[i],
                    ) && !self.in_flight@.contains(self.emitted@[i]) by {
                        if i < old(self).emitted().len() {
                            assert(self.emitted@[i] == old(self).emitted()[i]);
                        }
                    }
                }
                Some(c)
            },
            _ => {
                self.limiter.release();
                None
            },
        }
    }
}

/// Looks up the handler for the hit's file type and runs it; an unknown
/// type carves nothing.
pub fn run_handler(registry: &CarveRegistry, hit: &NormalizedHit, ctx: &ExtractionContext) -> (r:
    Result<Option<Carved>, CarveError>)
    ensures
        !registry.ids().contains(hit.file_type_id@) ==> r == Ok::<Option<Carved>, CarveError>(None),
        registry.ids().contains(hit.file_type_id@) ==> exists|i: int|
            registry.first_index(hit.file_type_id@, i) && #[trigger] registry.handler_at(i).outcome(
                hit,
                ctx,
                r,
            ),
        r is Ok,
        r->Ok_0 matches Some(c) ==> crate::carve::describes(c, ctx.evidence.bytes())
            && c.record.global_start == hit.global_offset,
{
    match registry.get(&hit.file_type_id) {
        None => Ok(None),
        Some(h) => h.process_hit(hit, ctx),
    }
}

/// Boundary magics are found: an occurrence of a configured pattern no
/// longer than the overlap plus one, anywhere in the evidence (the last
/// owned byte of a chunk included), is reported by the scan of the chunk that
/// owns its offset. Duplicates from the neighbouring chunk are then dropped
/// by the dedup key, so exactly one carve is attempted for it.
pub proof fn lemma_boundary_magic_found(
    ev: Seq<u8>,
    total: u64,
    cs: u64,
    ov: u64,
    pats: Seq<Pattern>,
    k: int,
    o: int,
)
    requires
        ev.len() == total,
        cs > 0,
        0 <= k < pats.len(),
        0 < pats[k].bytes@.len() <= ov + 1,
        matches_at(ev, pats[k].bytes@, o),
    ensures
        exists|i: int|
            0 <= i < chunk_plan(total, cs, ov).len() && #[trigger] chunk_plan(total, cs, ov)[i].start
                <= o < chunk_plan(total, cs, ov)[i].start + chunk_plan(total, cs, ov)[i].valid_length
                && scan_spec(
                window(
                    ev,
                    chunk_plan(total, cs, ov)[i].start as int,
                    chunk_plan(total, cs, ov)[i].length as int,
                ),
                pats,
            ).contains((k, o - chunk_plan(total, cs, ov)[i].start)),
{
    let pat = pats[k].bytes@;
    lemma_overlap_covers(total, cs, ov, o, pat.len() as int);
    let plan = chunk_plan(total, cs, ov);
    let i = choose|i: int|
        0 <= i < plan.len() && #[trigger] plan[i].start <= o < plan[i].start + plan[i].valid_length
            && o + pat.len() <= plan[i].start + plan[i].length;
    let c = plan[i];
    let w = window(ev, c.start as int, c.length as int);
    let local = o - c.start;
    assert(c.start + c.length <= ev.len() ==> w == ev.subrange(c.start as int, c.start + c.length));
    assert(w.subrange(local, local + pat.len()) =~= ev.subrange(o, o + pat.len()));
    lemma_scan_lists(w, pats, 0, k, local);
}

/// Never more files than the limit: in every well-formed coordinator state
/// the files carved stay within `max_files`.
pub proof fn lemma_files_within_limit(c: CarveCoordinator)
    requires
        c.wf(),
        c.spec_limiter().spec_limit() is Some,
    ensures
        c.spec_files_carved() <= c.spec_limiter().spec_limit()->Some_0,
{
}

/// No two emitted files come from hits with the same offset and file type.
pub proof fn lemma_emitted_keys_distinct(c: CarveCoordinator)
    requires
        c.wf(),
    ensures
        forall|i: int, j: int|
            0 <= i < j < c.emitted().len() ==> #[trigger] c.emitted()[i] != #[trigger] c.emitted()[j],
{
}

} // verus!
