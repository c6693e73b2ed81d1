//! Protocol-wide constants.

use vstd::prelude::*;

verus! {

/// 16-bit service identifier in front of every identity payload
/// (little-endian on the wire).
pub const SERVICE_UUID_16: u16 = 0xF00D;

/// The bytes of `"DEMO-DEMO-DEMO-1"`: the fixed 16-byte contact
/// identifier this device advertises in the extensible record.
pub const CONTACT_ID: [u8; 16] = [
    0x44, 0x45, 0x4D, 0x4F, 0x2D, 0x44, 0x45, 0x4D, 0x4F, 0x2D, 0x44, 0x45, 0x4D, 0x4F, 0x2D,
    0x31,
];

} // verus!
