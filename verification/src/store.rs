//! The single-slot store for the most recent heart-rate reading.
//!
//! Exactly one slot holds the latest `Reading` or "no reading yet". Each
//! `put` replaces the slot unconditionally; `get` returns the slot as it
//! stands. The store itself is a plain value: the surrounding process is
//! expected to guard it with a reader/writer lock when one writer and many
//! readers share it, so a reader always sees either the empty state or one
//! fully formed reading.

use vstd::prelude::*;

verus! {

/// One decoded sensor sample: when it arrived and the rate it carried.
#[derive(Clone, Copy, Debug, PartialEq, Eq, Structural)]
pub struct Reading {
    /// Wall-clock instant of the sample, milliseconds since the Unix epoch.
    pub ts_millis: u128,
    /// Heart rate in beats per minute, as carried by the wire format.
    pub value: u16,
}

/// The single slot. `latest` is `None` until the first `put` and afterwards
/// holds exactly the most recently stored reading.
pub struct LatestReadingStore {
    pub latest: Option<Reading>,
}

/// The slot after one `put`: the new reading, whatever was there before.
pub open spec fn spec_put(s: LatestReadingStore, r: Reading) -> LatestReadingStore {
    LatestReadingStore { latest: Some(r) }
}

/// The slot after a whole sequence of `put` calls, applied in order.
pub open spec fn spec_put_all(s: LatestReadingStore, rs: Seq<Reading>) -> LatestReadingStore
    decreases rs.len(),
{
    if rs.len() == 0 {
        s
    } else {
        spec_put_all(spec_put(s, rs[0]), rs.skip(1))
    }
}

impl LatestReadingStore {
    /// An empty store: no reading has been seen yet.
    pub fn new() -> (s: Self)
        ensures
            s.latest is None,
    {
        LatestReadingStore { latest: None }
    }

    /// Replace the slot with `r`, unconditionally.
    pub fn put(&mut self, r: Reading)
        ensures
            *final(self) == spec_put(*old(self), r),
            final(self).latest == Some(r),
    {
        self.latest = Some(r);
    }

    /// The current slot: `None` before the first `put`, otherwise the most
    /// recently stored reading.
    pub fn get(&self) -> (r: Option<Reading>)
        ensures
            r == self.latest,
    {
        self.latest
    }
}

/// However many `put` calls have run, the slot holds exactly the last one;
/// before any `put` it is whatever the store started as (empty at startup).
pub proof fn lemma_get_returns_last_put(s: LatestReadingStore, rs: Seq<Reading>)
    ensures
        rs.len() > 0 ==> spec_put_all(s, rs).latest == Some(rs.last()),
        rs.len() == 0 ==> spec_put_all(s, rs) == s,
    decreases rs.len(),
{
    if rs.len() > 0 {
        lemma_get_returns_last_put(spec_put(s, rs[0]), rs.skip(1));
        if rs.len() == 1 {
            assert(spec_put_all(s, rs) == spec_put(s, rs[0]));
        } else {
            assert(rs.skip(1).last() == rs.last());
        }
    }
}

} // verus!
