//! The transmit/receive beacon cycle as a state machine, and the
//! handling of one received advertising report.

use vstd::prelude::*;

use crate::adv_payload::parse_service_data_compact;
use crate::adv_payload::scan_adv_compact;
use crate::storage::bytes6_eq;
use crate::storage::suppresses_id;
use crate::storage::EncounterStore;
use crate::storage::MAX_ENCOUNTERS;

verus! {

/// The store total past which the beacon treats accumulation as
/// runaway and fails stop.  Deliberately larger than the store's
/// capacity: the capacity bounds memory, this bounds operation.
pub const SAFETY_CEILING: u32 = 1000;

/// Milliseconds between two transmit-indicator pulses.
pub const TX_PULSE_PERIOD_MS: u64 = 1000;

/// Operating state of the beacon cycle.
#[derive(Copy, Clone, PartialEq, Eq, Debug)]
pub enum BeaconState {
    /// The identity record is being advertised (initial state).
    Advertising,
    /// A bounded scan window is open.
    Scanning,
    /// Absorbing failure state: only the error indicator runs, and
    /// normal operation never resumes.
    Fault,
}

/// What the radio layer or the store reports to the beacon cycle.
#[derive(Copy, Clone, PartialEq, Eq, Debug)]
pub enum BeaconEvent {
    /// Advertising was started.
    AdvertiseOk,
    /// Advertising could not be started.
    AdvertiseFailed,
    /// A scan window was opened.
    ScanStarted,
    /// The scan window closed normally.
    ScanFinished,
    /// A scan window could not be opened.
    ScanFailed,
    /// The store's running total was read as `total`.
    StoreTotal(u32),
}

/// The next state of the beacon cycle.  `Fault` is absorbing; any
/// bring-up failure or a running total past the safety ceiling enters
/// it; otherwise a scan window moves `Advertising` to `Scanning` and
/// back.
pub open spec fn spec_beacon_step(state: BeaconState, event: BeaconEvent) -> BeaconState {
    match state {
        BeaconState::Fault => BeaconState::Fault,
        _ => match event {
            BeaconEvent::AdvertiseOk => state,
            BeaconEvent::AdvertiseFailed => BeaconState::Fault,
            BeaconEvent::ScanStarted => BeaconState::Scanning,
            BeaconEvent::ScanFinished => BeaconState::Advertising,
            BeaconEvent::ScanFailed => BeaconState::Fault,
            BeaconEvent::StoreTotal(total) => if total > SAFETY_CEILING {
                BeaconState::Fault
            } else {
                state
            },
        },
    }
}

/// Advance the beacon cycle by one event.
pub fn beacon_step(state: BeaconState, event: BeaconEvent) -> (r: BeaconState)
    ensures
        r == spec_beacon_step(state, event),
{
    match state {
        BeaconState::Fault => BeaconState::Fault,
        _ => match event {
            BeaconEvent::AdvertiseOk => state,
            BeaconEvent::AdvertiseFailed => BeaconState::Fault,
            BeaconEvent::ScanStarted => BeaconState::Scanning,
            BeaconEvent::ScanFinished => BeaconState::Advertising,
            BeaconEvent::ScanFailed => BeaconState::Fault,
            BeaconEvent::StoreTotal(total) => if total > SAFETY_CEILING {
                BeaconState::Fault
            } else {
                state
            },
        },
    }
}

/// The fault state is absorbing: no event leaves it.
pub proof fn lemma_fault_is_absorbing(event: BeaconEvent)
    ensures
        spec_beacon_step(BeaconState::Fault, event) == BeaconState::Fault,
{
}

/// Whether one more transmit pulse is due: at least a pulse period has
/// passed since the last one.
pub fn should_pulse_tx(now_ms: u64, last_pulse_ms: u64) -> (r: bool)
    ensures
        r == (now_ms >= last_pulse_ms && now_ms - last_pulse_ms >= TX_PULSE_PERIOD_MS),
{
    now_ms >= last_pulse_ms && now_ms - last_pulse_ms >= TX_PULSE_PERIOD_MS
}

/// What became of one received advertising report.
#[derive(Copy, Clone, PartialEq, Eq, Debug)]
pub enum RxOutcome {
    /// The report did not carry a well-formed identity record.
    NotProtocol,
    /// The record carried the device's own identity; nothing stored.
    SelfReport,
    /// A peer sighting was handed to the store.
    PeerSighted,
}

/// File one received advertising blob: decode it, ignore it unless it
/// carries a well-formed compact identity record, log nothing for the
/// device's own identity, and store every other sighting with the
/// given timestamp and signal strength.  A stored peer sighting is the
/// only outcome that asks for a receive pulse.
pub fn handle_adv_report(
    store: &mut EncounterStore,
    self_addr: &[u8; 6],
    data: &[u8],
    now: u64,
    rssi: i8,
) -> (r: RxOutcome)
    ensures
        scan_adv_compact(data@, 0) is None ==> r == RxOutcome::NotProtocol && *final(store) == *old(
            store,
        ),
        scan_adv_compact(data@, 0) matches Some(m) ==> {
            &&& m.device_id == self_addr@ ==> r == RxOutcome::SelfReport && *final(store) == *old(
                store,
            )
            &&& m.device_id != self_addr@ ==> r == RxOutcome::PeerSighted && {
                let es = old(store).entries();
                let fs = final(store).entries();
                &&& es.len() > 0 && suppresses_id(es.last(), m.device_id, now) ==> *final(store)
                    == *old(store)
                &&& !(es.len() > 0 && suppresses_id(es.last(), m.device_id, now)) ==> {
                    &&& fs.len() > 0
                    &&& fs.drop_last() == if es.len() >= MAX_ENCOUNTERS {
                        es.drop_first()
                    } else {
                        es
                    }
                    &&& fs.last().mac_addr@ == m.device_id
                    &&& fs.last().timestamp == now
                    &&& fs.last().rssi == rssi
                }
            }
        },
{
    match parse_service_data_compact(data) {
        None => RxOutcome::NotProtocol,
        Some(rec) => {
            if bytes6_eq(&rec.device_id, self_addr) {
                RxOutcome::SelfReport
            } else {
                store.save_encounter(rec.device_id, now, rssi);
                RxOutcome::PeerSighted
            }
        },
    }
}

} // verus!
