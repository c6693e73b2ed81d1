//! Bounded, deduplicating log of peer sightings.

use vstd::prelude::*;

use crate::heapless_specs::log_buf_clear;
use crate::heapless_specs::log_buf_get;
use crate::heapless_specs::log_buf_len;
use crate::heapless_specs::log_buf_new;
use crate::heapless_specs::log_buf_push;
use crate::heapless_specs::log_buf_remove_front;
use crate::heapless_specs::log_entries;

verus! {

/// One recorded sighting of a peer.
#[derive(Clone, Copy, PartialEq, Eq)]
pub struct EncounterLog {
    /// The peer's 6-byte radio address.
    pub mac_addr: [u8; 6],
    /// Unix seconds at the sighting; 0 while the clock is unsynchronized.
    pub timestamp: u64,
    /// Received signal strength.
    pub rssi: i8,
}

/// Capacity of the store: the oldest record is evicted beyond this.
pub const MAX_ENCOUNTERS: usize = 100;

/// A repeat sighting of the same peer within this many seconds is
/// treated as the same encounter.
pub const DEDUP_WINDOW_SECS: u64 = 30;

/// The absolute difference of two timestamps.
pub open spec fn abs_diff_u64(a: u64, b: u64) -> u64 {
    if a >= b {
        (a - b) as u64
    } else {
        (b - a) as u64
    }
}

/// Whether a new sighting of the peer with address `mac` at time `t`
/// is suppressed as a duplicate of the most recent record `last`: same
/// peer, and either timestamp is unknown or the two timestamps differ
/// by no more than the dedup window.
pub open spec fn suppresses_id(last: EncounterLog, mac: Seq<u8>, t: u64) -> bool {
    &&& last.mac_addr@ == mac
    &&& (last.timestamp == 0 || t == 0 || abs_diff_u64(t, last.timestamp) <= DEDUP_WINDOW_SECS)
}

/// [`suppresses_id`] over an address array.
pub open spec fn suppresses(last: EncounterLog, mac: [u8; 6], t: u64) -> bool {
    suppresses_id(last, mac@, t)
}

/// The store after accepting a new record: evict the oldest when at
/// capacity, then append.
pub open spec fn accepted(es: Seq<EncounterLog>, e: EncounterLog) -> Seq<EncounterLog> {
    if es.len() >= MAX_ENCOUNTERS {
        es.drop_first().push(e)
    } else {
        es.push(e)
    }
}

/// The bounded encounter store: an insertion-ordered sequence of
/// sightings plus a running total of everything ever accepted.
pub struct EncounterStore {
    buf: heapless::Vec<EncounterLog, MAX_ENCOUNTERS>,
    total: u32,
}

impl EncounterStore {
    /// The stored records, oldest first.
    pub closed spec fn entries(self) -> Seq<EncounterLog> {
        log_entries(self.buf)
    }

    /// How many records have ever been accepted (not capped by
    /// capacity; saturates at `u32::MAX`).
    pub closed spec fn total(self) -> u32 {
        self.total
    }

    /// An empty store.
    pub fn new() -> (r: EncounterStore)
        ensures
            r.entries() == Seq::<EncounterLog>::empty(),
            r.total() == 0,
    {
        EncounterStore { buf: log_buf_new(), total: 0 }
    }

    /// Record a sighting.  A repeat of the most recent peer within the
    /// dedup window is handled without storing anything; otherwise the
    /// record is appended, evicting the oldest record when the store is
    /// full.  Reports the sighting as handled either way.
    pub fn save_encounter(&mut self, mac_addr: [u8; 6], timestamp: u64, rssi: i8) -> (r: bool)
        ensures
            r == true,
            final(self).entries().len() <= MAX_ENCOUNTERS,
            old(self).entries().len() > 0 && suppresses(
                old(self).entries().last(),
                mac_addr,
                timestamp,
            ) ==> *final(self) == *old(self),
            !(old(self).entries().len() > 0 && suppresses(
                old(self).entries().last(),
                mac_addr,
                timestamp,
            )) ==> {
                &&& final(self).entries() == accepted(
                    old(self).entries(),
                    EncounterLog { mac_addr, timestamp, rssi },
                )
                &&& final(self).total() == if old(self).total() == u32::MAX {
                    u32::MAX
                } else {
                    (old(self).total() + 1) as u32
                }
            },
    {
        let n = log_buf_len(&self.buf);
        if n > 0 {
            let last = log_buf_get(&self.buf, n - 1);
            if bytes6_eq(&last.mac_addr, &mac_addr) {
                if last.timestamp == 0 || timestamp == 0 {
                    return true;
                }
                let delta = if timestamp >= last.timestamp {
                    timestamp - last.timestamp
                } else {
                    last.timestamp - timestamp
                };
                if delta <= DEDUP_WINDOW_SECS {
                    return true;
                }
            }
        }
        if n == MAX_ENCOUNTERS {
            log_buf_remove_front(&mut self.buf);
        }
        log_buf_push(&mut self.buf, EncounterLog { mac_addr, timestamp, rssi });
        self.total = self.total.saturating_add(1);
        true
    }

    /// Copy the current records, oldest first, into `out` (replacing
    /// its contents) and return how many were copied.  The store is not
    /// changed.
    pub fn snapshot(&self, out: &mut heapless::Vec<EncounterLog, MAX_ENCOUNTERS>) -> (r: usize)
        ensures
            r == self.entries().len(),
            r <= MAX_ENCOUNTERS,
            log_entries(*final(out)) == self.entries(),
    {
        log_buf_clear(out);
        let n = log_buf_len(&self.buf);
        let mut i: usize = 0;
        while i < n
            invariant
                n == self.entries().len(),
                n <= MAX_ENCOUNTERS,
                i <= n,
                log_entries(*out) == self.entries().subrange(0, i as int),
            decreases n - i,
        {
            log_buf_push(out, log_buf_get(&self.buf, i));
            i = i + 1;
            proof {
                assert(log_entries(*out) =~= self.entries().subrange(0, i as int));
            }
        }
        proof {
            assert(log_entries(*out) =~= self.entries());
        }
        n
    }

    /// Remove every record; the running total is kept.
    pub fn clear(&mut self)
        ensures
            final(self).entries() == Seq::<EncounterLog>::empty(),
            final(self).total() == old(self).total(),
    {
        log_buf_clear(&mut self.buf);
    }

    /// The running total of accepted records.
    pub fn total_saved(&self) -> (r: u32)
        ensures
            r == self.total(),
    {
        self.total
    }
}

/// Whether two 6-byte addresses are equal.
pub fn bytes6_eq(a: &[u8; 6], b: &[u8; 6]) -> (r: bool)
    ensures
        r == (a@ == b@),
{
    let r = a[0] == b[0] && a[1] == b[1] && a[2] == b[2] && a[3] == b[3] && a[4] == b[4] && a[5]
        == b[5];
    proof {
        if r {
            assert(a@ =~= b@);
        }
    }
    r
}

} // verus!
