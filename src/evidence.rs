//! Evidence held in memory: a random-access byte source of known length.
use vstd::prelude::*;

verus! {

/// The bytes of `b` in `[offset, offset + n)` that exist: empty at or past the end.
pub open spec fn window(b: Seq<u8>, offset: int, n: int) -> Seq<u8> {
    let s = if offset < b.len() { offset } else { b.len() as int };
    let e = if offset + n < b.len() { offset + n } else { b.len() as int };
    if s <= e { b.subrange(s, e) } else { Seq::empty() }
}

/// Bytes that remain in a stream of `len` bytes from `start` on.
pub open spec fn avail(len: int, start: int) -> int {
    if start >= len { 0 } else { len - start }
}

pub struct Evidence {
    data: Vec<u8>,
}

impl Evidence {
    pub closed spec fn bytes(&self) -> Seq<u8> {
        self.data@
    }

    pub fn new(data: Vec<u8>) -> (r: Self)
        ensures
            r.bytes() == data@,
    {
        Evidence { data }
    }

    pub fn len(&self) -> (r: u64)
        ensures
            r == self.bytes().len(),
    {
        self.data.len() as u64
    }

    /// Reads up to `n` bytes starting at `offset`; fewer near the end, none past it.
    pub fn read_at(&self, offset: u64, n: u64) -> (r: Vec<u8>)
        ensures
            r@ == window(self.bytes(), offset as int, n as int),
            r@.len() == if n < avail(self.bytes().len() as int, offset as int) { n as int } else {
                avail(self.bytes().len() as int, offset as int)
            },
    {
        let mut out: Vec<u8> = Vec::new();
        let len = self.data.len();
        if offset >= len as u64 {
            assert(window(self.bytes(), offset as int, n as int) =~= Seq::<u8>::empty());
            return out;
        }
        let s = offset as usize;
        let rest = len - s;
        let take: usize = if (n as u128) < (rest as u128) { n as usize } else { rest };
        let mut i: usize = 0;
        while i < take
            invariant
                s + take <= len,
                len == self.data@.len(),
                i <= take,
                out@ == self.data@.subrange(s as int, s + i),
            decreases take - i,
        {
            out.push(self.data[s + i]);
            i = i + 1;
            assert(out@ =~= self.data@.subrange(s as int, s + i));
        }
        assert(out@ =~= window(self.bytes(), offset as int, n as int));
        out
    }
}

} // verus!
