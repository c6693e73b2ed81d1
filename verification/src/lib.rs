//! Core of a proximity-encounter beacon.
//!
//! A device periodically advertises a small identity record over a
//! short-range radio, listens for the same record from peers, keeps the
//! decoded sightings in a bounded deduplicating store, and uploads the
//! accumulated log to a collector on a schedule.  This crate holds the
//! verified logic of that device: the wire-format codec, the encounter
//! store, the beacon state machine and the upload-timing rules.  Radio,
//! network and clock access stay outside, behind plain-value interfaces.

pub mod adv_payload;
pub mod api_client;
pub mod beacon;
pub mod constants;
pub mod device_id;
pub mod format;
pub mod heapless_specs;
pub mod scheduler;
pub mod settings;
pub mod storage;
