//! Carve-count limiter: reserve before carving, then commit or release.
//!
//! Each operation takes `&mut self`, so it runs as one indivisible step; a
//! pipeline that shares the limiter between workers puts it behind a lock.
use vstd::prelude::*;

verus! {

#[derive(Debug)]
pub struct CarveLimiter {
    limit: Option<u64>,
    reserved: u64,
    carved: u64,
}

impl CarveLimiter {
    pub closed spec fn spec_limit(&self) -> Option<u64> {
        self.limit
    }

    pub closed spec fn spec_reserved(&self) -> u64 {
        self.reserved
    }

    pub closed spec fn spec_carved(&self) -> u64 {
        self.carved
    }

    /// Committed plus reserved carves never pass the limit; without a limit
    /// nothing is ever held in reserve.
    pub open spec fn wf(&self) -> bool {
        match self.spec_limit() {
            Some(k) => self.spec_carved() + self.spec_reserved() <= k,
            None => self.spec_reserved() == 0,
        }
    }

    pub fn new(limit: Option<u64>) -> (r: Self)
        ensures
            r.wf(),
            r.spec_limit() == limit,
            r.spec_reserved() == 0,
            r.spec_carved() == 0,
    {
        CarveLimiter { limit, reserved: 0, carved: 0 }
    }

    pub fn limit(&self) -> (r: Option<u64>)
        ensures
            r == self.spec_limit(),
    {
        self.limit
    }

    pub fn carved(&self) -> (r: u64)
        ensures
            r == self.spec_carved(),
    {
        self.carved
    }

    /// The committed-carve counter itself, for reporting.
    pub fn carved_counter(&self) -> (r: &u64)
        ensures
            *r == self.spec_carved(),
    {
        &self.carved
    }

    pub fn reserved(&self) -> (r: u64)
        ensures
            r == self.spec_reserved(),
    {
        self.reserved
    }

    /// Claims one carve slot. Without a limit this always succeeds and holds
    /// nothing; with a limit it succeeds exactly while committed plus reserved
    /// carves stay below it.
    pub fn try_reserve(&mut self) -> (r: bool)
        requires
            old(self).wf(),
        ensures
            final(self).wf(),
            final(self).spec_limit() == old(self).spec_limit(),
            final(self).spec_carved() == old(self).spec_carved(),
            match old(self).spec_limit() {
                None => r && final(self).spec_reserved() == 0,
                Some(k) => r == (old(self).spec_carved() + old(self).spec_reserved() < k) && (r
                    ==> final(self).spec_reserved() == old(self).spec_reserved() + 1) && (!r
                    ==> final(self).spec_reserved() == old(self).spec_reserved()),
            },
    {
        match self.limit {
            None => true,
            Some(limit) => {
                if self.carved + self.reserved >= limit {
                    false
                } else {
                    self.reserved = self.reserved + 1;
                    true
                }
            },
        }
    }

    /// Turns a reservation into a committed carve.
    pub fn commit(&mut self)
        requires
            old(self).wf(),
            old(self).spec_limit() is Some ==> old(self).spec_reserved() > 0,
            old(self).spec_limit() is None ==> old(self).spec_carved() < u64::MAX,
        ensures
            final(self).wf(),
            final(self).spec_limit() == old(self).spec_limit(),
            final(self).spec_carved() == old(self).spec_carved() + 1,
            old(self).spec_limit() is Some ==> final(self).spec_reserved() == old(
                self,
            ).spec_reserved() - 1,
            old(self).spec_limit() is None ==> final(self).spec_reserved() == 0,
    {
        self.carved = self.carved + 1;
        if self.limit.is_some() {
            self.dec_reserved();
        }
    }

    /// Gives a reservation back without carving.
    pub fn release(&mut self)
        requires
            old(self).wf(),
        ensures
            final(self).wf(),
            final(self).spec_limit() == old(self).spec_limit(),
            final(self).spec_carved() == old(self).spec_carved(),
            old(self).spec_reserved() > 0 ==> final(self).spec_reserved() == old(
                self,
            ).spec_reserved() - 1,
            old(self).spec_reserved() == 0 ==> final(self).spec_reserved() == 0,
    {
        if self.limit.is_some() {
            self.dec_reserved();
        }
    }

    /// Whether the limit has been reached by committed carves.
    pub fn should_stop(&self) -> (r: bool)
        ensures
            r == match self.spec_limit() {
                Some(k) => self.spec_carved() >= k,
                None => false,
            },
    {
        match self.limit {
            Some(limit) => self.carved >= limit,
            None => false,
        }
    }

    fn dec_reserved(&mut self)
        ensures
            final(self).limit == old(self).limit,
            final(self).carved == old(self).carved,
            old(self).reserved > 0 ==> final(self).reserved == old(self).reserved - 1,
            old(self).reserved == 0 ==> final(self).reserved == 0,
    {
        if self.reserved > 0 {
            self.reserved = self.reserved - 1;
        }
    }
}

/// However reservations, commits and releases interleave, a limiter kept
/// well-formed by its operations never holds more committed carves than its
/// limit.
pub proof fn lemma_commits_within_limit(l: CarveLimiter)
    requires
        l.wf(),
        l.spec_limit() is Some,
    ensures
        l.spec_carved() <= l.spec_limit()->Some_0,
{
}

} // verus!
