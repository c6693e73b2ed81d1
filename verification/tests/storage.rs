use pico_w_id_beacon::storage::EncounterLog;
use pico_w_id_beacon::storage::EncounterStore;
use pico_w_id_beacon::storage::MAX_ENCOUNTERS;

fn contents(store: &EncounterStore) -> Vec<EncounterLog> {
    let mut out: heapless::Vec<EncounterLog, MAX_ENCOUNTERS> = heapless::Vec::new();
    let n = store.snapshot(&mut out);
    assert_eq!(n, out.len());
    out.as_slice().to_vec()
}

#[test]
fn repeat_within_window_is_suppressed() {
    let mac = [1, 2, 3, 4, 5, 6];
    let mut store = EncounterStore::new();
    assert!(store.save_encounter(mac, 100, -40));
    assert!(store.save_encounter(mac, 110, -50));
    let logs = contents(&store);
    assert_eq!(logs.len(), 1);
    assert_eq!(logs[0].timestamp, 100);
    assert_eq!(logs[0].rssi, -40);
    assert_eq!(store.total_saved(), 1);
}

#[test]
fn repeat_past_window_is_stored() {
    let mac = [1, 2, 3, 4, 5, 6];
    let mut store = EncounterStore::new();
    assert!(store.save_encounter(mac, 100, -40));
    assert!(store.save_encounter(mac, 140, -50));
    let logs = contents(&store);
    assert_eq!(logs.len(), 2);
    assert_eq!(logs[1].timestamp, 140);
    assert_eq!(store.total_saved(), 2);
}

#[test]
fn older_timestamp_past_window_is_stored() {
    // The clock may be re-synced backwards between sightings: a repeat
    // whose timestamp is 50 s older is no duplicate.
    let mac = [1, 2, 3, 4, 5, 6];
    let mut store = EncounterStore::new();
    assert!(store.save_encounter(mac, 100, -40));
    assert!(store.save_encounter(mac, 50, -50));
    let logs = contents(&store);
    assert_eq!(logs.len(), 2);
    assert_eq!(logs[1].timestamp, 50);
    assert_eq!(store.total_saved(), 2);
}

#[test]
fn older_timestamp_within_window_is_suppressed() {
    let mac = [1, 2, 3, 4, 5, 6];
    let mut store = EncounterStore::new();
    assert!(store.save_encounter(mac, 100, -40));
    assert!(store.save_encounter(mac, 90, -50));
    assert_eq!(contents(&store).len(), 1);
    assert_eq!(store.total_saved(), 1);
}

#[test]
fn unknown_timestamp_counts_as_repeat() {
    let mac = [9, 9, 9, 9, 9, 9];
    let mut store = EncounterStore::new();
    assert!(store.save_encounter(mac, 0, -40));
    assert!(store.save_encounter(mac, 5000, -50));
    assert_eq!(contents(&store).len(), 1);
    assert_eq!(store.total_saved(), 1);
}

#[test]
fn different_peer_is_never_suppressed() {
    let mut store = EncounterStore::new();
    assert!(store.save_encounter([1, 1, 1, 1, 1, 1], 100, -40));
    assert!(store.save_encounter([2, 2, 2, 2, 2, 2], 101, -40));
    assert_eq!(contents(&store).len(), 2);
    assert_eq!(store.total_saved(), 2);
}

#[test]
fn only_the_most_recent_record_dedups() {
    // A peer seen again after another peer intervened is a new record,
    // however close the timestamps.
    let mut store = EncounterStore::new();
    assert!(store.save_encounter([1, 1, 1, 1, 1, 1], 100, -40));
    assert!(store.save_encounter([2, 2, 2, 2, 2, 2], 101, -40));
    assert!(store.save_encounter([1, 1, 1, 1, 1, 1], 102, -40));
    assert_eq!(contents(&store).len(), 3);
}

fn mac_of(i: u16) -> [u8; 6] {
    [1, 2, 3, 4, (i >> 8) as u8, (i & 0xFF) as u8]
}

#[test]
fn oldest_record_is_evicted_at_capacity() {
    let mut store = EncounterStore::new();
    for i in 0..101u16 {
        assert!(store.save_encounter(mac_of(i), 1000 + i as u64, -40));
    }
    let logs = contents(&store);
    assert_eq!(logs.len(), 100);
    // The first record inserted is the one that left.
    assert_eq!(logs[0].mac_addr, mac_of(1));
    assert_eq!(logs[99].mac_addr, mac_of(100));
    assert_eq!(store.total_saved(), 101);
}

#[test]
fn snapshot_is_a_copy_not_a_view() {
    let mut store = EncounterStore::new();
    store.save_encounter([1, 2, 3, 4, 5, 6], 100, -40);
    store.save_encounter([6, 5, 4, 3, 2, 1], 200, -50);
    let mut snap: heapless::Vec<EncounterLog, MAX_ENCOUNTERS> = heapless::Vec::new();
    let n = store.snapshot(&mut snap);
    assert_eq!(n, 2);
    store.clear();
    assert_eq!(contents(&store).len(), 0);
    // The snapshot taken before the clear is unaffected.
    assert_eq!(snap.len(), 2);
    assert_eq!(snap[0].mac_addr, [1, 2, 3, 4, 5, 6]);
    assert_eq!(snap[1].mac_addr, [6, 5, 4, 3, 2, 1]);
}

#[test]
fn clear_keeps_the_running_total() {
    let mut store = EncounterStore::new();
    store.save_encounter([1, 2, 3, 4, 5, 6], 100, -40);
    store.clear();
    assert_eq!(store.total_saved(), 1);
    assert_eq!(contents(&store).len(), 0);
}

#[test]
fn snapshot_replaces_previous_buffer_contents() {
    let mut store = EncounterStore::new();
    store.save_encounter([1, 2, 3, 4, 5, 6], 100, -40);
    let mut snap: heapless::Vec<EncounterLog, MAX_ENCOUNTERS> = heapless::Vec::new();
    store.snapshot(&mut snap);
    store.clear();
    store.save_encounter([7, 7, 7, 7, 7, 7], 300, -30);
    let n = store.snapshot(&mut snap);
    assert_eq!(n, 1);
    assert_eq!(snap.len(), 1);
    assert_eq!(snap[0].mac_addr, [7, 7, 7, 7, 7, 7]);
}
