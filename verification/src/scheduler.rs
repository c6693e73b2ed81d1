//! Upload timing: when to wake, whether to send, and how to reconcile
//! the store with the transport's outcome.

use vstd::prelude::*;

use crate::storage::EncounterLog;
use crate::storage::EncounterStore;

verus! {

/// Seconds in a day.
pub const SECS_PER_DAY: u64 = 86400;

/// Fixed offset of local wall-clock time ahead of UTC, in seconds.
pub const LOCAL_OFFSET_SECS: u64 = 9 * 3600;

/// Second of the local day at which the daily upload runs (03:00).
pub const TARGET_SEC_OF_DAY: u64 = 3 * 3600;

/// Developer mode uploads at this fixed interval, in seconds.
pub const FAST_INTERVAL_SECS: u64 = 30;

/// How long to wait before asking the clock again while it is not yet
/// synchronized, in seconds.
pub const CLOCK_RETRY_SECS: u64 = 10;

/// The seconds from `now` (UTC) until the next time the local
/// wall-clock reads `target` seconds past midnight.
pub open spec fn spec_seconds_until_target(now: u64, offset: u64, target: u64) -> int {
    let sec_of_day = (now + offset) % (SECS_PER_DAY as int);
    if sec_of_day <= target {
        target - sec_of_day
    } else {
        SECS_PER_DAY - (sec_of_day - target)
    }
}

/// Compute how long to sleep until the local wall-clock next reads
/// `target` seconds past midnight: the distance forward from the
/// current second of the local day, wrapping over midnight.
pub fn seconds_until_target(now: u64, offset: u64, target: u64) -> (r: u64)
    requires
        now + offset <= u64::MAX,
        target < SECS_PER_DAY,
    ensures
        r == spec_seconds_until_target(now, offset, target),
        r <= SECS_PER_DAY,
{
    let local = now + offset;
    let sec_of_day = local % SECS_PER_DAY;
    if sec_of_day <= target {
        target - sec_of_day
    } else {
        SECS_PER_DAY - (sec_of_day - target)
    }
}

/// What the upload task should do next.
#[derive(Copy, Clone, PartialEq, Eq, Debug)]
pub enum WakeDecision {
    /// Sleep this many seconds, then run an upload cycle.
    UploadAfter(u64),
    /// The clock is not synchronized yet: sleep this many seconds and
    /// decide again.
    RetryAfter(u64),
}

/// Decide the next wake-up.  Developer mode wakes at the fixed fast
/// interval; normal mode wakes at the daily local target time, and
/// while the clock is unknown it retries after a short delay instead
/// of uploading with a synthetic timestamp.
pub fn plan_wake(developer_mode: bool, now: Option<u64>) -> (r: WakeDecision)
    requires
        now matches Some(t) ==> t + LOCAL_OFFSET_SECS <= u64::MAX,
    ensures
        developer_mode ==> r == WakeDecision::UploadAfter(FAST_INTERVAL_SECS),
        !developer_mode ==> match now {
            Some(t) => r == WakeDecision::UploadAfter(
                spec_seconds_until_target(t, LOCAL_OFFSET_SECS, TARGET_SEC_OF_DAY) as u64,
            ),
            None => r == WakeDecision::RetryAfter(CLOCK_RETRY_SECS),
        },
{
    if developer_mode {
        WakeDecision::UploadAfter(FAST_INTERVAL_SECS)
    } else {
        match now {
            Some(t) => WakeDecision::UploadAfter(
                seconds_until_target(t, LOCAL_OFFSET_SECS, TARGET_SEC_OF_DAY),
            ),
            None => WakeDecision::RetryAfter(CLOCK_RETRY_SECS),
        }
    }
}

/// Whether a cycle with this many snapshot records calls the transport
/// at all: an empty snapshot skips the cycle.
pub fn should_upload(snapshot_count: usize) -> (r: bool)
    ensures
        r == (snapshot_count > 0),
{
    snapshot_count > 0
}

/// Reconcile the store with the transport's outcome: a confirmed
/// delivery clears the store, anything else leaves it untouched, so a
/// failed upload never loses records.
pub fn settle_upload(store: &mut EncounterStore, delivered: bool)
    ensures
        delivered ==> final(store).entries() == Seq::<EncounterLog>::empty() && final(store).total() == old(
            store,
        ).total(),
        !delivered ==> *final(store) == *old(store),
{
    if delivered {
        store.clear();
    }
}

} // verus!
