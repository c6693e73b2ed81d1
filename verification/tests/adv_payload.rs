use pico_w_id_beacon::adv_payload::build_adv_payload;
use pico_w_id_beacon::adv_payload::build_advertisement_data;
use pico_w_id_beacon::adv_payload::build_compact_payload;
use pico_w_id_beacon::adv_payload::encode_identity;
use pico_w_id_beacon::adv_payload::parse_service_data;
use pico_w_id_beacon::adv_payload::parse_service_data_compact;
use pico_w_id_beacon::adv_payload::RecordFormat;
use pico_w_id_beacon::adv_payload::TlvType;
use pico_w_id_beacon::constants::CONTACT_ID;
use pico_w_id_beacon::constants::SERVICE_UUID_16;

fn build_service_data_ad(payload: &[u8]) -> Vec<u8> {
    let mut ad: Vec<u8> = Vec::new();
    // Flags 0x01
    ad.extend_from_slice(&[0x02, 0x01, 0x06]);
    // Complete 16-bit UUIDs (0x03) with SERVICE_UUID_16 (LE)
    ad.extend_from_slice(&[0x03, 0x03, (SERVICE_UUID_16 & 0xFF) as u8, (SERVICE_UUID_16 >> 8) as u8]);
    // Service Data 0x16: len = 1(type) + 2(uuid) + payload.len()
    let len = 1 + 2 + payload.len();
    ad.extend_from_slice(&[len as u8, 0x16, (SERVICE_UUID_16 & 0xFF) as u8, (SERVICE_UUID_16 >> 8) as u8]);
    ad.extend_from_slice(payload);
    ad
}

#[test]
fn build_and_parse_contact_only() {
    let mut buf = [0u8; 32];
    let n = build_adv_payload(&mut buf);
    assert!(n > 0);
    assert_eq!(&buf[..4], &[0x01, 0x01, 0x00, 0x00]);
    assert_eq!(buf[4], TlvType::ContactId.tag());
    assert_eq!(buf[5], 16);
    assert_eq!(&buf[6..6 + 16], &CONTACT_ID);

    let ad = build_service_data_ad(&buf[..n]);
    let parsed = parse_service_data(&ad).expect("must parse");
    assert_eq!(parsed.version, 0x01);
    assert_eq!(parsed.msg_type, 0x01);
    assert_eq!(parsed.flags, 0x00);
    assert_eq!(parsed.rsv, 0x00);
    assert_eq!(parsed.contact_id, CONTACT_ID);
}

#[test]
fn parse_ignores_other_uuid() {
    // Build Service Data with other UUID
    let mut payload = [0u8; 32];
    let n = build_adv_payload(&mut payload);
    let mut ad: Vec<u8> = Vec::new();
    // Service Data 0x16, UUID=0xBEEF
    ad.extend_from_slice(&[2 + 1 + n as u8, 0x16, 0xEF, 0xBE]);
    ad.extend_from_slice(&payload[..n]);
    assert!(parse_service_data(&ad).is_none());
}

#[test]
fn parse_bounds_checks() {
    // Broken AD
    assert!(parse_service_data(&[0x02, 0x16]).is_none());
    // Correct header but short TLV
    let mut p = [0u8; 8];
    p[..4].copy_from_slice(&[1, 1, 0, 0]);
    p[4..6].copy_from_slice(&[TlvType::ContactId.tag(), 15]); // too short
    let mut ad: Vec<u8> = Vec::new();
    ad.extend_from_slice(&[2 + 1 + p.len() as u8, 0x16, (SERVICE_UUID_16 & 0xFF) as u8, (SERVICE_UUID_16 >> 8) as u8]);
    ad.extend_from_slice(&p);
    assert!(parse_service_data(&ad).is_none());
}

#[test]
fn build_rejects_small_buffer() {
    let mut small = [0u8; 21];
    assert_eq!(build_adv_payload(&mut small), 0);
    assert_eq!(small, [0u8; 21]);
}

#[test]
fn tlv_tags_on_the_wire() {
    assert_eq!(TlvType::ContactId.tag(), 0x01);
    assert_eq!(TlvType::EventId.tag(), 0x02);
    assert_eq!(TlvType::EpochMin.tag(), 0x03);
    assert_eq!(TlvType::Flags2.tag(), 0x04);
    assert_eq!(TlvType::TagSig.tag(), 0x10);
}

#[test]
fn overflowing_record_aborts_scan() {
    // The first record claims 10 bytes but only 2 remain: the scan must
    // abort, even though a perfectly valid record follows.
    let mut payload = [0u8; 32];
    let n = build_adv_payload(&mut payload);
    let mut ad: Vec<u8> = vec![10, 0xFF, 0xFF];
    ad.extend_from_slice(&build_service_data_ad(&payload[..n]));
    assert!(parse_service_data(&ad).is_none());
}

#[test]
fn zero_length_record_is_skipped() {
    let mut payload = [0u8; 32];
    let n = build_adv_payload(&mut payload);
    let mut ad: Vec<u8> = vec![0, 0, 0];
    ad.extend_from_slice(&build_service_data_ad(&payload[..n]));
    assert!(parse_service_data(&ad).is_some());
}

#[test]
fn wrong_version_is_ignored() {
    let mut payload = [0u8; 32];
    let n = build_adv_payload(&mut payload);
    payload[0] = 0x02; // version the parser does not speak
    let ad = build_service_data_ad(&payload[..n]);
    assert!(parse_service_data(&ad).is_none());
}

#[test]
fn extensible_round_trip_through_own_frame() {
    let mut payload = [0u8; 22];
    let n = build_adv_payload(&mut payload);
    let mut ad = [0u8; 31];
    let m = build_advertisement_data(&mut ad, &payload[..n]);
    assert_eq!(m, 29);
    let parsed = parse_service_data(&ad[..m]).expect("must parse");
    assert_eq!(parsed.version, 0x01);
    assert_eq!(parsed.msg_type, 0x01);
    assert_eq!(parsed.contact_id, CONTACT_ID);
}

#[test]
fn compact_round_trip() {
    let addr = [0x11, 0x22, 0x33, 0x44, 0x55, 0x66];
    let mut payload = [0u8; 8];
    let n = build_compact_payload(&mut payload, 0x00, &addr);
    assert_eq!(n, 8);
    assert_eq!(payload, [0x01, 0x00, 0x11, 0x22, 0x33, 0x44, 0x55, 0x66]);

    let mut ad = [0u8; 31];
    let m = build_advertisement_data(&mut ad, &payload[..n]);
    assert_eq!(m, 15);
    let rec = parse_service_data_compact(&ad[..m]).expect("must parse");
    assert_eq!(rec.version, 0x01);
    assert_eq!(rec.device_type, 0x00);
    assert_eq!(rec.device_id, addr);
}

#[test]
fn compact_rejects_wrong_length() {
    // Compact records are exactly 8 bytes of payload.
    let mut ad = [0u8; 31];
    let m = build_advertisement_data(&mut ad, &[0x01, 0x00, 0x11, 0x22, 0x33, 0x44, 0x55]);
    assert!(m > 0);
    assert!(parse_service_data_compact(&ad[..m]).is_none());
}

#[test]
fn advertisement_frame_bytes() {
    let mut ad = [0u8; 31];
    let m = build_advertisement_data(&mut ad, &[0xAB, 0xCD]);
    assert_eq!(m, 9);
    assert_eq!(&ad[..m], &[0x02, 0x01, 0x06, 0x05, 0x16, 0x0D, 0xF0, 0xAB, 0xCD]);
}

#[test]
fn advertisement_frame_rejects_small_buffer() {
    let mut ad = [0u8; 8];
    assert_eq!(build_advertisement_data(&mut ad, &[0xAB, 0xCD]), 0);
    assert_eq!(ad, [0u8; 8]);
}

#[test]
fn encode_identity_dispatches_on_format() {
    let addr = [0x11, 0x22, 0x33, 0x44, 0x55, 0x66];
    let mut buf = [0u8; 32];
    let n = encode_identity(RecordFormat::Compact, &mut buf, 0x01, &addr);
    assert_eq!(n, 8);
    assert_eq!(&buf[..8], &[0x01, 0x01, 0x11, 0x22, 0x33, 0x44, 0x55, 0x66]);

    let n = encode_identity(RecordFormat::Extensible, &mut buf, 0x01, &addr);
    assert_eq!(n, 22);
    assert_eq!(&buf[..4], &[0x01, 0x01, 0x00, 0x00]);
    assert_eq!(&buf[6..22], &CONTACT_ID);
}
