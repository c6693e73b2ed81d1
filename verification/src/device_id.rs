//! Choice and normalization of the device's own identifier.

use vstd::prelude::*;

use crate::storage::bytes6_eq;

verus! {

/// Which source the 16-byte device identifier was taken from.
#[derive(Copy, Clone, PartialEq, Eq, Debug)]
pub enum DeviceIdKind {
    BdAddr6,
    Rp2040Uid8,
    PersistentRand16,
}

impl DeviceIdKind {
    /// The kind byte placed next to the identifier on the wire.
    pub open spec fn spec_kind_byte(self) -> u8 {
        match self {
            DeviceIdKind::BdAddr6 => 0x00,
            DeviceIdKind::Rp2040Uid8 => 0x01,
            DeviceIdKind::PersistentRand16 => 0x02,
        }
    }

    /// The kind byte placed next to the identifier on the wire.
    pub fn to_kind_byte(self) -> (r: u8)
        ensures
            r == self.spec_kind_byte(),
    {
        match self {
            DeviceIdKind::BdAddr6 => 0x00,
            DeviceIdKind::Rp2040Uid8 => 0x01,
            DeviceIdKind::PersistentRand16 => 0x02,
        }
    }

    /// The text label of this source.
    pub fn as_str(self) -> (r: &'static str)
        ensures
            self == DeviceIdKind::BdAddr6 ==> r@ == "BD6"@,
            self == DeviceIdKind::Rp2040Uid8 ==> r@ == "UID8"@,
            self == DeviceIdKind::PersistentRand16 ==> r@ == "RAND16"@,
    {
        match self {
            DeviceIdKind::BdAddr6 => "BD6",
            DeviceIdKind::Rp2040Uid8 => "UID8",
            DeviceIdKind::PersistentRand16 => "RAND16",
        }
    }
}

/// Ten zero bytes: the padding behind a 6-byte address.
pub open spec fn pad10() -> Seq<u8> {
    Seq::new(10, |i: int| 0u8)
}

/// Eight zero bytes: the padding behind an 8-byte unique id.
pub open spec fn pad8() -> Seq<u8> {
    Seq::new(8, |i: int| 0u8)
}

/// Widen a 6-byte address to the 16-byte identifier by zero padding.
pub fn normalize6_to_16(mac6: &[u8; 6]) -> (r: [u8; 16])
    ensures
        r@ == mac6@ + pad10(),
{
    let mut out: [u8; 16] = [0u8; 16];
    let mut k: usize = 0;
    while k < 6
        invariant
            k <= 6,
            forall|j: int| 0 <= j < k ==> out@[j] == mac6@[j],
            forall|j: int| k <= j < 16 ==> out@[j] == 0u8,
        decreases 6 - k,
    {
        out[k] = mac6[k];
        k = k + 1;
    }
    proof {
        assert(out@ =~= mac6@ + pad10());
    }
    out
}

/// Widen an 8-byte unique id to the 16-byte identifier by zero
/// padding.
pub fn normalize8_to_16(id8: &[u8; 8]) -> (r: [u8; 16])
    ensures
        r@ == id8@ + pad8(),
{
    let mut out: [u8; 16] = [0u8; 16];
    let mut k: usize = 0;
    while k < 8
        invariant
            k <= 8,
            forall|j: int| 0 <= j < k ==> out@[j] == id8@[j],
            forall|j: int| k <= j < 16 ==> out@[j] == 0u8,
        decreases 8 - k,
    {
        out[k] = id8[k];
        k = k + 1;
    }
    proof {
        assert(out@ =~= id8@ + pad8());
    }
    out
}

/// The flash unique id of the chip, were a safe read available; no
/// such read is exposed here, so no id is returned.
pub fn rp2040_uid8() -> (r: Option<[u8; 8]>)
    ensures
        r is None,
{
    None
}

/// One round of the mixer: fold the rotated word and the golden-ratio
/// constant back in.
pub open spec fn mix_step(x: u64) -> u64 {
    x ^ (((x << 17) | (x >> 47)) ^ 0x9E3779B97F4A7C15u64)
}

/// The seed word drawn from a raw tick count.
pub open spec fn seed_mix(t: u64) -> u64 {
    t ^ ((t << 13) | (t >> 7))
}

/// The eight little-endian bytes of a word.
pub open spec fn u64_le_bytes(x: u64) -> Seq<u8> {
    seq![
        x as u8,
        (x >> 8) as u8,
        (x >> 16) as u8,
        (x >> 24) as u8,
        (x >> 32) as u8,
        (x >> 40) as u8,
        (x >> 48) as u8,
        (x >> 56) as u8,
    ]
}

/// The 16 identifier bytes mixed from a tick count: two mixer rounds,
/// eight little-endian bytes each.
pub open spec fn mix16(t: u64) -> Seq<u8> {
    u64_le_bytes(mix_step(seed_mix(t))) + u64_le_bytes(mix_step(mix_step(seed_mix(t))))
}

/// Fill eight bytes of `out` from `off` with the little-endian bytes
/// of `x`.
fn put_le_bytes(out: &mut [u8; 16], off: usize, x: u64)
    requires
        off + 8 <= 16,
    ensures
        forall|j: int| off <= j < off + 8 ==> final(out)@[j] == u64_le_bytes(x)[j - off],
        forall|j: int| 0 <= j < 16 && !(off <= j < off + 8) ==> final(out)@[j] == old(out)@[j],
{
    out[off] = #[verifier::truncate] (x as u8);
    out[off + 1] = #[verifier::truncate] ((x >> 8) as u8);
    out[off + 2] = #[verifier::truncate] ((x >> 16) as u8);
    out[off + 3] = #[verifier::truncate] ((x >> 24) as u8);
    out[off + 4] = #[verifier::truncate] ((x >> 32) as u8);
    out[off + 5] = #[verifier::truncate] ((x >> 40) as u8);
    out[off + 6] = #[verifier::truncate] ((x >> 48) as u8);
    out[off + 7] = #[verifier::truncate] ((x >> 56) as u8);
}

/// Mix a fallback 16-byte identifier out of a raw tick count.  The
/// result is a function of the tick count alone; drawing the count
/// from a clock is the caller's business.
pub fn mix16_from_ticks(t: u64) -> (r: [u8; 16])
    ensures
        r@ == mix16(t),
{
    let x0 = t ^ ((t << 13) | (t >> 7));
    let x1 = x0 ^ (((x0 << 17) | (x0 >> 47)) ^ 0x9E3779B97F4A7C15u64);
    let x2 = x1 ^ (((x1 << 17) | (x1 >> 47)) ^ 0x9E3779B97F4A7C15u64);
    let mut out: [u8; 16] = [0u8; 16];
    put_le_bytes(&mut out, 0, x1);
    put_le_bytes(&mut out, 8, x2);
    proof {
        assert(x1 == mix_step(seed_mix(t)));
        assert(x2 == mix_step(mix_step(seed_mix(t))));
        assert(out@ =~= mix16(t));
    }
    out
}

/// Pick the device identifier: the radio address when it is set, else
/// the flash unique id when one is available, else the caller's
/// fallback, each widened to 16 bytes.
pub fn select_device_id(mac6: &[u8; 6], uid8: Option<[u8; 8]>, fallback16: [u8; 16]) -> (r: (
    [u8; 16],
    DeviceIdKind,
))
    ensures
        mac6@ != Seq::new(6, |i: int| 0u8) ==> r.0@ == mac6@ + pad10() && r.1
            == DeviceIdKind::BdAddr6,
        mac6@ == Seq::new(6, |i: int| 0u8) ==> (uid8 matches Some(u) ==> r.0@ == u@ + pad8() && r.1
            == DeviceIdKind::Rp2040Uid8),
        mac6@ == Seq::new(6, |i: int| 0u8) && uid8 is None ==> r.0 == fallback16 && r.1
            == DeviceIdKind::PersistentRand16,
{
    let zero: [u8; 6] = [0u8; 6];
    proof {
        assert(zero@ =~= Seq::new(6, |i: int| 0u8));
    }
    if !bytes6_eq(mac6, &zero) {
        (normalize6_to_16(mac6), DeviceIdKind::BdAddr6)
    } else {
        match uid8 {
            Some(u) => (normalize8_to_16(&u), DeviceIdKind::Rp2040Uid8),
            None => (fallback16, DeviceIdKind::PersistentRand16),
        }
    }
}

} // verus!
