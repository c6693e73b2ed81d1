//! Wire-format codec for the advertised identity record.
//!
//! The outer advertising blob is a length-prefixed sequence of
//! `{length, type, data}` records.  The codec looks for the service-data
//! record (type `0x16`) carrying [`crate::constants::SERVICE_UUID_16`],
//! and decodes the identity payload behind it.  Two payload layouts
//! exist: an extensible `{version, msg_type, flags, reserved}` header
//! followed by type-length-value fields, and a compact fixed 8-byte
//! `{version, device_type, device_id}` record.

use vstd::prelude::*;

use crate::constants::CONTACT_ID;
use crate::constants::SERVICE_UUID_16;
use vstd::slice::slice_subrange;

verus! {

/// Low byte of [`SERVICE_UUID_16`] as it appears on the wire.
pub const SERVICE_UUID_LO: u8 = 0x0D;

/// High byte of [`SERVICE_UUID_16`] as it appears on the wire.
pub const SERVICE_UUID_HI: u8 = 0xF0;

/// Advertising-data record type for service data with a 16-bit
/// identifier.
pub const AD_TYPE_SERVICE_DATA: u8 = 0x16;

/// Version byte every identity payload starts with.
pub const RECORD_VERSION: u8 = 0x01;

/// Message-type byte of the extensible beacon frame.
pub const MSG_TYPE_BEACON: u8 = 0x01;

/// Field kinds of the extensible frame's type-length-value section.
#[derive(Copy, Clone, Eq, PartialEq, Debug)]
pub enum TlvType {
    ContactId,
    EventId,
    EpochMin,
    Flags2,
    TagSig,
}

impl TlvType {
    /// The tag byte of this field kind.
    pub open spec fn spec_tag(self) -> u8 {
        match self {
            TlvType::ContactId => 0x01,
            TlvType::EventId => 0x02,
            TlvType::EpochMin => 0x03,
            TlvType::Flags2 => 0x04,
            TlvType::TagSig => 0x10,
        }
    }

    /// The tag byte of this field kind.
    pub fn tag(self) -> (r: u8)
        ensures
            r == self.spec_tag(),
    {
        match self {
            TlvType::ContactId => 0x01,
            TlvType::EventId => 0x02,
            TlvType::EpochMin => 0x03,
            TlvType::Flags2 => 0x04,
            TlvType::TagSig => 0x10,
        }
    }
}

/// A decoded extensible identity record.
#[derive(Copy, Clone, Eq, PartialEq, Debug)]
pub struct Parsed {
    pub version: u8,
    pub msg_type: u8,
    pub flags: u8,
    pub rsv: u8,
    pub contact_id: [u8; 16],
}

/// Spec-level image of a decoded extensible record.
pub struct ParsedModel {
    pub version: u8,
    pub msg_type: u8,
    pub flags: u8,
    pub rsv: u8,
    pub contact_id: Seq<u8>,
}

impl View for Parsed {
    type V = ParsedModel;

    open spec fn view(&self) -> ParsedModel {
        ParsedModel {
            version: self.version,
            msg_type: self.msg_type,
            flags: self.flags,
            rsv: self.rsv,
            contact_id: self.contact_id@,
        }
    }
}

/// The 16-bit value of two little-endian bytes.
pub open spec fn le_u16(lo: u8, hi: u8) -> int {
    lo + 256 * hi
}

/// Scan of the type-length-value section of an extensible frame from
/// offset `off`; the last complete contact-id field of the right size
/// wins.  A field whose declared length runs past the end stops the
/// scan.
pub open spec fn scan_tlvs(p: Seq<u8>, off: int, found: Option<Seq<u8>>) -> Option<Seq<u8>>
    decreases p.len() - off,
{
    if off < 0 || off + 2 > p.len() {
        found
    } else {
        let l = p[off + 1] as int;
        if off + 2 + l > p.len() {
            found
        } else {
            let f2 = if p[off] == TlvType::ContactId.spec_tag() && l == 16 {
                Some(p.subrange(off + 2, off + 18))
            } else {
                found
            };
            scan_tlvs(p, off + 2 + l, f2)
        }
    }
}

/// Decoding of an extensible frame: a 4-byte header with the expected
/// version and message type, followed by the type-length-value section,
/// which must yield a 16-byte contact id.
pub open spec fn parse_frame(p: Seq<u8>) -> Option<ParsedModel> {
    if p.len() < 4 {
        None
    } else if p[0] != RECORD_VERSION || p[1] != MSG_TYPE_BEACON {
        None
    } else {
        match scan_tlvs(p, 4, None) {
            Some(id) => Some(
                ParsedModel {
                    version: p[0],
                    msg_type: p[1],
                    flags: p[2],
                    rsv: p[3],
                    contact_id: id,
                },
            ),
            None => None,
        }
    }
}

/// Decoding of one advertising record: service data tagged with the
/// expected service identifier, whose remaining bytes form a frame.
pub open spec fn parse_record(ty: u8, data: Seq<u8>) -> Option<ParsedModel> {
    if ty != AD_TYPE_SERVICE_DATA {
        None
    } else if data.len() < 2 {
        None
    } else if le_u16(data[0], data[1]) != SERVICE_UUID_16 {
        None
    } else {
        parse_frame(data.subrange(2, data.len() as int))
    }
}

/// Scan of the advertising blob from position `i`: the first record
/// that decodes wins; a zero length skips one byte; a record whose
/// declared length runs past the end aborts the whole scan.
pub open spec fn scan_adv(ad: Seq<u8>, i: int) -> Option<ParsedModel>
    decreases ad.len() - i,
{
    if i < 0 || i >= ad.len() {
        None
    } else {
        let l = ad[i] as int;
        if l == 0 {
            scan_adv(ad, i + 1)
        } else if i + 1 + l > ad.len() {
            None
        } else {
            match parse_record(ad[i + 1], ad.subrange(i + 2, i + 1 + l)) {
                Some(m) => Some(m),
                None => scan_adv(ad, i + 1 + l),
            }
        }
    }
}

/// The extensible frame advertised for contact id `id`: the fixed
/// header and one complete contact-id field.
pub open spec fn frame_bytes(id: Seq<u8>) -> Seq<u8> {
    seq![RECORD_VERSION, MSG_TYPE_BEACON, 0u8, 0u8, 0x01u8, 16u8] + id
}

/// Build the extensible identity frame in the front of `buf` and
/// return its size, or return 0, leaving `buf` unchanged, when the
/// buffer is too small for the header and one complete contact-id
/// field.
pub fn build_adv_payload(buf: &mut [u8]) -> (n: usize)
    ensures
        old(buf)@.len() < 22 ==> n == 0 && final(buf)@ == old(buf)@,
        old(buf)@.len() >= 22 ==> n == 22 && final(buf)@ == frame_bytes(CONTACT_ID@) + old(
            buf,
        )@.subrange(22, old(buf)@.len() as int),
{
    if buf.len() < 22 {
        return 0;
    }
    buf[0] = RECORD_VERSION;
    buf[1] = MSG_TYPE_BEACON;
    buf[2] = 0x00;
    buf[3] = 0x00;
    buf[4] = 0x01;
    buf[5] = 16;
    let mut k: usize = 0;
    while k < 16
        invariant
            buf@.len() == old(buf)@.len() >= 22,
            k <= 16,
            buf@[0] == RECORD_VERSION,
            buf@[1] == MSG_TYPE_BEACON,
            buf@[2] == 0u8,
            buf@[3] == 0u8,
            buf@[4] == 0x01u8,
            buf@[5] == 16u8,
            forall|j: int| 0 <= j < k ==> buf@[6 + j] == CONTACT_ID@[j],
            forall|j: int| 6 + k <= j < buf@.len() ==> buf@[j] == old(buf)@[j],
        decreases 16 - k,
    {
        buf[6 + k] = CONTACT_ID[k];
        k = k + 1;
    }
    proof {
        assert(buf@ =~= frame_bytes(CONTACT_ID@) + old(buf)@.subrange(22, old(buf)@.len() as int));
    }
    22
}

/// Copy 16 bytes of `src` starting at `off` into an array.
fn copy16(src: &[u8], off: usize) -> (r: [u8; 16])
    requires
        off + 16 <= src@.len(),
    ensures
        r@ == src@.subrange(off as int, off as int + 16),
{
    let mut r: [u8; 16] = [0u8; 16];
    let n = src.len();
    let mut k: usize = 0;
    while k < 16
        invariant
            n == src@.len(),
            off + 16 <= src@.len(),
            k <= 16,
            forall|j: int| 0 <= j < k ==> r@[j] == src@[off + j],
        decreases 16 - k,
    {
        r[k] = src[off + k];
        k = k + 1;
    }
    proof {
        assert(r@ =~= src@.subrange(off as int, off as int + 16));
    }
    r
}

/// The spec image of an optionally found contact id.
pub open spec fn found_model(f: Option<[u8; 16]>) -> Option<Seq<u8>> {
    match f {
        Some(a) => Some(a@),
        None => None,
    }
}

/// Decode one extensible frame.
fn parse_frame_bytes(p: &[u8]) -> (r: Option<Parsed>)
    ensures
        match r {
            Some(v) => parse_frame(p@) == Some(v@),
            None => parse_frame(p@) is None,
        },
{
    let n = p.len();
    if n < 4 {
        return None;
    }
    let ver = p[0];
    let msg_type = p[1];
    let flags = p[2];
    let rsv = p[3];
    if ver != RECORD_VERSION || msg_type != MSG_TYPE_BEACON {
        return None;
    }
    let mut off: usize = 4;
    let mut found: Option<[u8; 16]> = None;
    loop
        invariant
            n == p@.len(),
            4 <= off,
            scan_tlvs(p@, 4, None) == scan_tlvs(p@, off as int, found_model(found)),
        ensures
            scan_tlvs(p@, 4, None) == found_model(found),
        decreases n - off,
    {
        if off >= n || n - off < 2 {
            break;
        }
        let t = p[off];
        let l = p[off + 1] as usize;
        if l > n - off - 2 {
            break;
        }
        if t == 0x01 && l == 16 {
            found = Some(copy16(p, off + 2));
        }
        off = off + 2 + l;
    }
    match found {
        Some(id) => Some(Parsed { version: ver, msg_type, flags, rsv, contact_id: id }),
        None => None,
    }
}

/// Decode one advertising record.
fn parse_record_bytes(ty: u8, data: &[u8]) -> (r: Option<Parsed>)
    ensures
        match r {
            Some(v) => parse_record(ty, data@) == Some(v@),
            None => parse_record(ty, data@) is None,
        },
{
    if ty != AD_TYPE_SERVICE_DATA {
        return None;
    }
    if data.len() < 2 {
        return None;
    }
    let uuid: u32 = data[0] as u32 + 256 * (data[1] as u32);
    if uuid != SERVICE_UUID_16 as u32 {
        return None;
    }
    let payload = slice_subrange(data, 2, data.len());
    parse_frame_bytes(payload)
}

/// Scan an advertising blob for the first well-formed extensible
/// identity record behind the expected service identifier.  Malformed
/// or foreign records are skipped; a record whose declared length runs
/// past the end of the blob aborts the scan (see
/// [`lemma_overflow_aborts_whole_scan`]).  Total on arbitrary
/// untrusted input: every read is bounds-checked, and the proof rules
/// out panics and out-of-range indexing.
pub fn parse_service_data(ad: &[u8]) -> (r: Option<Parsed>)
    ensures
        match r {
            Some(p) => scan_adv(ad@, 0) == Some(p@),
            None => scan_adv(ad@, 0) is None,
        },
{
    let n = ad.len();
    let mut i: usize = 0;
    loop
        invariant
            n == ad@.len(),
            scan_adv(ad@, 0) == scan_adv(ad@, i as int),
        ensures
            scan_adv(ad@, 0) is None,
        decreases n - i,
    {
        if i >= n {
            break;
        }
        let l = ad[i] as usize;
        if l == 0 {
            i = i + 1;
            continue;
        }
        if l > n - i - 1 {
            return None;
        }
        let ty = ad[i + 1];
        let data = slice_subrange(ad, i + 2, i + 1 + l);
        match parse_record_bytes(ty, data) {
            Some(p) => {
                return Some(p);
            },
            None => {
                i = i + 1 + l;
            },
        }
    }
    None
}

/// A decoded compact identity record.
#[derive(Copy, Clone, Eq, PartialEq, Debug)]
pub struct CompactRecord {
    pub version: u8,
    pub device_type: u8,
    pub device_id: [u8; 6],
}

/// Spec-level image of a decoded compact record.
pub struct CompactModel {
    pub version: u8,
    pub device_type: u8,
    pub device_id: Seq<u8>,
}

impl View for CompactRecord {
    type V = CompactModel;

    open spec fn view(&self) -> CompactModel {
        CompactModel {
            version: self.version,
            device_type: self.device_type,
            device_id: self.device_id@,
        }
    }
}

/// Decoding of a compact frame: exactly 8 bytes, expected version, any
/// device type, then the 6-byte device id.
pub open spec fn parse_compact_frame(p: Seq<u8>) -> Option<CompactModel> {
    if p.len() != 8 {
        None
    } else if p[0] != RECORD_VERSION {
        None
    } else {
        Some(CompactModel { version: p[0], device_type: p[1], device_id: p.subrange(2, 8) })
    }
}

/// Decoding of one advertising record under the compact layout.
pub open spec fn parse_compact_record(ty: u8, data: Seq<u8>) -> Option<CompactModel> {
    if ty != AD_TYPE_SERVICE_DATA {
        None
    } else if data.len() < 2 {
        None
    } else if le_u16(data[0], data[1]) != SERVICE_UUID_16 {
        None
    } else {
        parse_compact_frame(data.subrange(2, data.len() as int))
    }
}

/// Scan of the advertising blob for a compact record, under the same
/// container rules as [`scan_adv`].
pub open spec fn scan_adv_compact(ad: Seq<u8>, i: int) -> Option<CompactModel>
    decreases ad.len() - i,
{
    if i < 0 || i >= ad.len() {
        None
    } else {
        let l = ad[i] as int;
        if l == 0 {
            scan_adv_compact(ad, i + 1)
        } else if i + 1 + l > ad.len() {
            None
        } else {
            match parse_compact_record(ad[i + 1], ad.subrange(i + 2, i + 1 + l)) {
                Some(m) => Some(m),
                None => scan_adv_compact(ad, i + 1 + l),
            }
        }
    }
}

/// The compact frame advertised for device id `id` with kind byte
/// `device_type`.
pub open spec fn compact_frame_bytes(device_type: u8, id: Seq<u8>) -> Seq<u8> {
    seq![RECORD_VERSION, device_type] + id
}

/// Build the compact identity frame in the front of `buf` and return
/// its size, or return 0, leaving `buf` unchanged, when the buffer
/// cannot hold the 8 bytes.
pub fn build_compact_payload(buf: &mut [u8], device_type: u8, device_id: &[u8; 6]) -> (n: usize)
    ensures
        old(buf)@.len() < 8 ==> n == 0 && final(buf)@ == old(buf)@,
        old(buf)@.len() >= 8 ==> n == 8 && final(buf)@ == compact_frame_bytes(
            device_type,
            device_id@,
        ) + old(buf)@.subrange(8, old(buf)@.len() as int),
{
    if buf.len() < 8 {
        return 0;
    }
    buf[0] = RECORD_VERSION;
    buf[1] = device_type;
    let mut k: usize = 0;
    while k < 6
        invariant
            buf@.len() == old(buf)@.len() >= 8,
            k <= 6,
            buf@[0] == RECORD_VERSION,
            buf@[1] == device_type,
            forall|j: int| 0 <= j < k ==> buf@[2 + j] == device_id@[j],
            forall|j: int| 2 + k <= j < buf@.len() ==> buf@[j] == old(buf)@[j],
        decreases 6 - k,
    {
        buf[2 + k] = device_id[k];
        k = k + 1;
    }
    proof {
        assert(buf@ =~= compact_frame_bytes(device_type, device_id@) + old(buf)@.subrange(
            8,
            old(buf)@.len() as int,
        ));
    }
    8
}

/// Decode one compact frame.
fn parse_compact_frame_bytes(p: &[u8]) -> (r: Option<CompactRecord>)
    ensures
        match r {
            Some(v) => parse_compact_frame(p@) == Some(v@),
            None => parse_compact_frame(p@) is None,
        },
{
    if p.len() != 8 {
        return None;
    }
    let version = p[0];
    if version != RECORD_VERSION {
        return None;
    }
    let device_type = p[1];
    let mut id: [u8; 6] = [0u8; 6];
    let mut k: usize = 0;
    while k < 6
        invariant
            p@.len() == 8,
            k <= 6,
            forall|j: int| 0 <= j < k ==> id@[j] == p@[2 + j],
        decreases 6 - k,
    {
        id[k] = p[2 + k];
        k = k + 1;
    }
    proof {
        assert(id@ =~= p@.subrange(2, 8));
    }
    Some(CompactRecord { version, device_type, device_id: id })
}

/// Scan an advertising blob for the first well-formed compact identity
/// record behind the expected service identifier, under the same
/// container rules as [`parse_service_data`], and equally total on
/// arbitrary untrusted input.
pub fn parse_service_data_compact(ad: &[u8]) -> (r: Option<CompactRecord>)
    ensures
        match r {
            Some(p) => scan_adv_compact(ad@, 0) == Some(p@),
            None => scan_adv_compact(ad@, 0) is None,
        },
{
    let n = ad.len();
    let mut i: usize = 0;
    loop
        invariant
            n == ad@.len(),
            scan_adv_compact(ad@, 0) == scan_adv_compact(ad@, i as int),
        ensures
            scan_adv_compact(ad@, 0) is None,
        decreases n - i,
    {
        if i >= n {
            break;
        }
        let l = ad[i] as usize;
        if l == 0 {
            i = i + 1;
            continue;
        }
        if l > n - i - 1 {
            return None;
        }
        let ty = ad[i + 1];
        if ty == AD_TYPE_SERVICE_DATA && l >= 3 {
            let d0 = ad[i + 2];
            let d1 = ad[i + 3];
            let uuid: u32 = d0 as u32 + 256 * (d1 as u32);
            if uuid == SERVICE_UUID_16 as u32 {
                let payload = slice_subrange(ad, i + 4, i + 1 + l);
                match parse_compact_frame_bytes(payload) {
                    Some(p) => {
                        proof {
                            assert(ad@.subrange(i + 2, i + 1 + l as int).subrange(
                                2,
                                (l - 1) as int,
                            ) =~= ad@.subrange(i + 4, i + 1 + l as int));
                        }
                        return Some(p);
                    },
                    None => {
                        proof {
                            assert(ad@.subrange(i + 2, i + 1 + l as int).subrange(
                                2,
                                (l - 1) as int,
                            ) =~= ad@.subrange(i + 4, i + 1 + l as int));
                        }
                    },
                }
            }
        }
        i = i + 1 + l;
    }
    None
}

/// Identity-record layout the device is built to speak.
#[derive(Copy, Clone, Eq, PartialEq, Debug)]
pub enum RecordFormat {
    Compact,
    Extensible,
}

/// Encode the identity record of the chosen layout in the front of
/// `buf`; the compact layout carries the caller's 6-byte device id,
/// the extensible layout the device's fixed contact id.
pub fn encode_identity(
    format: RecordFormat,
    buf: &mut [u8],
    device_type: u8,
    device_id: &[u8; 6],
) -> (n: usize)
    ensures
        format == RecordFormat::Compact ==> {
            &&& old(buf)@.len() < 8 ==> n == 0 && final(buf)@ == old(buf)@
            &&& old(buf)@.len() >= 8 ==> n == 8 && final(buf)@ == compact_frame_bytes(
                device_type,
                device_id@,
            ) + old(buf)@.subrange(8, old(buf)@.len() as int)
        },
        format == RecordFormat::Extensible ==> {
            &&& old(buf)@.len() < 22 ==> n == 0 && final(buf)@ == old(buf)@
            &&& old(buf)@.len() >= 22 ==> n == 22 && final(buf)@ == frame_bytes(CONTACT_ID@) + old(
                buf,
            )@.subrange(22, old(buf)@.len() as int)
        },
{
    match format {
        RecordFormat::Compact => build_compact_payload(buf, device_type, device_id),
        RecordFormat::Extensible => build_adv_payload(buf),
    }
}

/// The complete advertising blob around an identity payload: a flags
/// record, then the service-data record tagged with the service
/// identifier.
pub open spec fn adv_frame_bytes(payload: Seq<u8>) -> Seq<u8> {
    seq![
        0x02u8,
        0x01u8,
        0x06u8,
        (3 + payload.len()) as u8,
        AD_TYPE_SERVICE_DATA,
        SERVICE_UUID_LO,
        SERVICE_UUID_HI,
    ] + payload
}

/// Build the advertising blob around `payload` in the front of `buf`
/// and return its size, or return 0, leaving `buf` unchanged, when the
/// payload is too long for a record or the buffer too small.
pub fn build_advertisement_data(buf: &mut [u8], payload: &[u8]) -> (n: usize)
    ensures
        payload@.len() > 248 || old(buf)@.len() < 7 + payload@.len() ==> n == 0 && final(buf)@
            == old(buf)@,
        payload@.len() <= 248 && old(buf)@.len() >= 7 + payload@.len() ==> n == 7
            + payload@.len() && final(buf)@ == adv_frame_bytes(payload@) + old(buf)@.subrange(
            7 + payload@.len() as int,
            old(buf)@.len() as int,
        ),
{
    let plen = payload.len();
    if plen > 248 || buf.len() < 7 || buf.len() - 7 < plen {
        return 0;
    }
    buf[0] = 0x02;
    buf[1] = 0x01;
    buf[2] = 0x06;
    buf[3] = 3 + plen as u8;
    buf[4] = AD_TYPE_SERVICE_DATA;
    buf[5] = SERVICE_UUID_LO;
    buf[6] = SERVICE_UUID_HI;
    let mut k: usize = 0;
    while k < plen
        invariant
            buf@.len() == old(buf)@.len() >= 7 + plen,
            plen == payload@.len() <= 248,
            k <= plen,
            buf@[0] == 0x02u8,
            buf@[1] == 0x01u8,
            buf@[2] == 0x06u8,
            buf@[3] == (3 + plen) as u8,
            buf@[4] == AD_TYPE_SERVICE_DATA,
            buf@[5] == SERVICE_UUID_LO,
            buf@[6] == SERVICE_UUID_HI,
            forall|j: int| 0 <= j < k ==> buf@[7 + j] == payload@[j],
            forall|j: int| 7 + k <= j < buf@.len() ==> buf@[j] == old(buf)@[j],
        decreases plen - k,
    {
        buf[7 + k] = payload[k];
        k = k + 1;
    }
    proof {
        assert(buf@ =~= adv_frame_bytes(payload@) + old(buf)@.subrange(
            7 + payload@.len() as int,
            old(buf)@.len() as int,
        ));
    }
    7 + plen
}

/// The advertising blob built around the extensible frame for contact
/// id `id` decodes back to the same record: version, message type,
/// zero flags, and the very same identifier.
pub proof fn lemma_adv_round_trip(id: Seq<u8>)
    requires
        id.len() == 16,
    ensures
        scan_adv(adv_frame_bytes(frame_bytes(id)), 0) == Some(
            ParsedModel {
                version: RECORD_VERSION,
                msg_type: MSG_TYPE_BEACON,
                flags: 0u8,
                rsv: 0u8,
                contact_id: id,
            },
        ),
{
    let frame = frame_bytes(id);
    let ad = adv_frame_bytes(frame);
    assert(frame.len() == 22);
    assert(ad.len() == 29);
    assert(ad[0] == 2);
    assert(ad[1] == 1);
    let data0 = ad.subrange(2, 3);
    assert(parse_record(ad[1], data0) is None);
    assert(scan_adv(ad, 0) == scan_adv(ad, 3));
    assert(ad[3] == 25);
    let data = ad.subrange(5, 29);
    assert(data.len() == 24);
    assert(data[0] == SERVICE_UUID_LO && data[1] == SERVICE_UUID_HI);
    assert(le_u16(SERVICE_UUID_LO, SERVICE_UUID_HI) == SERVICE_UUID_16);
    let payload = data.subrange(2, 24);
    assert(payload =~= frame);
    assert(frame[0] == RECORD_VERSION && frame[1] == MSG_TYPE_BEACON && frame[2] == 0u8
        && frame[3] == 0u8);
    assert(frame[4] == 0x01u8 && frame[5] == 16u8);
    assert(frame.subrange(6, 22) =~= id);
    assert(scan_tlvs(frame, 22, Some(id)) == Some(id));
    assert(scan_tlvs(frame, 4, None) == Some(id));
    assert(parse_frame(frame) == Some(
        ParsedModel {
            version: RECORD_VERSION,
            msg_type: MSG_TYPE_BEACON,
            flags: 0u8,
            rsv: 0u8,
            contact_id: id,
        },
    ));
    assert(scan_adv(ad, 0) == Some(
        ParsedModel {
            version: RECORD_VERSION,
            msg_type: MSG_TYPE_BEACON,
            flags: 0u8,
            rsv: 0u8,
            contact_id: id,
        },
    ));
}

/// The advertising blob built around the compact frame for a device id
/// decodes back to the same record under the compact layout.
pub proof fn lemma_compact_round_trip(device_type: u8, id: Seq<u8>)
    requires
        id.len() == 6,
    ensures
        scan_adv_compact(adv_frame_bytes(compact_frame_bytes(device_type, id)), 0) == Some(
            CompactModel { version: RECORD_VERSION, device_type, device_id: id },
        ),
{
    let frame = compact_frame_bytes(device_type, id);
    let ad = adv_frame_bytes(frame);
    assert(frame.len() == 8);
    assert(ad.len() == 15);
    assert(ad[0] == 2);
    assert(ad[1] == 1);
    let data0 = ad.subrange(2, 3);
    assert(parse_compact_record(ad[1], data0) is None);
    assert(scan_adv_compact(ad, 0) == scan_adv_compact(ad, 3));
    assert(ad[3] == 11);
    let data = ad.subrange(5, 15);
    assert(data.len() == 10);
    assert(data[0] == SERVICE_UUID_LO && data[1] == SERVICE_UUID_HI);
    assert(le_u16(SERVICE_UUID_LO, SERVICE_UUID_HI) == SERVICE_UUID_16);
    let payload = data.subrange(2, 10);
    assert(payload =~= frame);
    assert(frame[0] == RECORD_VERSION && frame[1] == device_type);
    assert(payload.subrange(2, 8) =~= id);
    assert(parse_compact_frame(payload) == Some(
        CompactModel { version: RECORD_VERSION, device_type, device_id: id },
    ));
    assert(scan_adv_compact(ad, 0) == Some(
        CompactModel { version: RECORD_VERSION, device_type, device_id: id },
    ));
}

/// A record whose declared length runs past the end of the blob stops
/// the scan with nothing found, wherever the scan has reached.
pub proof fn lemma_scan_aborts_on_overflow(ad: Seq<u8>, i: int)
    requires
        0 <= i < ad.len(),
        ad[i] != 0,
        i + 1 + ad[i] > ad.len(),
    ensures
        scan_adv(ad, i) is None,
        scan_adv_compact(ad, i) is None,
{
}

/// Whether the scan of [`scan_adv`] started at `i` ever stands at
/// position `j`: it steps over zero-length records and whole records
/// that do not decode, and stops at a decoded record or an overflow.
pub open spec fn scan_visits(ad: Seq<u8>, i: int, j: int) -> bool
    decreases ad.len() - i,
{
    i == j || (0 <= i && i < ad.len() && {
        let l = ad[i] as int;
        if l == 0 {
            scan_visits(ad, i + 1, j)
        } else if i + 1 + l > ad.len() {
            false
        } else if parse_record(ad[i + 1], ad.subrange(i + 2, i + 1 + l)) is Some {
            false
        } else {
            scan_visits(ad, i + 1 + l, j)
        }
    })
}

/// [`scan_visits`] for the compact-layout scan of
/// [`scan_adv_compact`].
pub open spec fn scan_visits_compact(ad: Seq<u8>, i: int, j: int) -> bool
    decreases ad.len() - i,
{
    i == j || (0 <= i && i < ad.len() && {
        let l = ad[i] as int;
        if l == 0 {
            scan_visits_compact(ad, i + 1, j)
        } else if i + 1 + l > ad.len() {
            false
        } else if parse_compact_record(ad[i + 1], ad.subrange(i + 2, i + 1 + l)) is Some {
            false
        } else {
            scan_visits_compact(ad, i + 1 + l, j)
        }
    })
}

/// Whenever the scan reaches a record whose declared length would
/// read past the end of the blob, the whole scan comes up empty: no
/// record found earlier is returned, and nothing past the overflow is
/// decoded.
pub proof fn lemma_overflow_aborts_whole_scan(ad: Seq<u8>, i: int, j: int)
    requires
        scan_visits(ad, i, j),
        0 <= j < ad.len(),
        ad[j] != 0,
        j + 1 + ad[j] > ad.len(),
    ensures
        scan_adv(ad, i) is None,
    decreases ad.len() - i,
{
    if i == j {
        lemma_scan_aborts_on_overflow(ad, j);
    } else {
        let l = ad[i] as int;
        if l == 0 {
            lemma_overflow_aborts_whole_scan(ad, i + 1, j);
        } else {
            lemma_overflow_aborts_whole_scan(ad, i + 1 + l, j);
        }
    }
}

/// [`lemma_overflow_aborts_whole_scan`] for the compact-layout scan.
pub proof fn lemma_overflow_aborts_whole_scan_compact(ad: Seq<u8>, i: int, j: int)
    requires
        scan_visits_compact(ad, i, j),
        0 <= j < ad.len(),
        ad[j] != 0,
        j + 1 + ad[j] > ad.len(),
    ensures
        scan_adv_compact(ad, i) is None,
    decreases ad.len() - i,
{
    if i == j {
        lemma_scan_aborts_on_overflow(ad, j);
    } else {
        let l = ad[i] as int;
        if l == 0 {
            lemma_overflow_aborts_whole_scan_compact(ad, i + 1, j);
        } else {
            lemma_overflow_aborts_whole_scan_compact(ad, i + 1 + l, j);
        }
    }
}

} // verus!
