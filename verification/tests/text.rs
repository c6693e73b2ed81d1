use pico_w_id_beacon::api_client::build_request_head;
use pico_w_id_beacon::api_client::parse_http_status;
use pico_w_id_beacon::api_client::serialize_to_json;
use pico_w_id_beacon::api_client::serialize_to_json_checked;
use pico_w_id_beacon::api_client::upload_accepted;
use pico_w_id_beacon::api_client::ApiPayload;
use pico_w_id_beacon::device_id::mix16_from_ticks;
use pico_w_id_beacon::device_id::normalize6_to_16;
use pico_w_id_beacon::device_id::normalize8_to_16;
use pico_w_id_beacon::device_id::rp2040_uid8;
use pico_w_id_beacon::device_id::select_device_id;
use pico_w_id_beacon::device_id::DeviceIdKind;
use pico_w_id_beacon::format::fmt_bytes_colon;
use pico_w_id_beacon::format::fmt_id16_compact;
use pico_w_id_beacon::format::kind_label_u8;
use pico_w_id_beacon::settings::is_developer_mode;
use pico_w_id_beacon::settings::DEVELOPER_MODE;
use pico_w_id_beacon::storage::EncounterLog;

#[test]
fn colon_hex_of_six_bytes() {
    let s = fmt_bytes_colon(&[0xAA, 0xBB, 0x0C, 0x4D, 0x5E, 0x6F]);
    assert_eq!(s.as_str(), "aa:bb:0c:4d:5e:6f");
}

#[test]
fn colon_hex_of_nothing_is_empty() {
    let s = fmt_bytes_colon(&[]);
    assert_eq!(s.as_str(), "");
}

#[test]
fn id16_is_shortened_around_dots() {
    let v: [u8; 16] = [
        0xAA, 0xBB, 0xCC, 4, 5, 6, 7, 8, 9, 10, 11, 12, 13, 0xDD, 0xEE, 0xFF,
    ];
    let s = fmt_id16_compact(&v);
    assert_eq!(s.as_str(), "aa:bb:cc..dd:ee:ff");
}

#[test]
fn kind_labels() {
    assert_eq!(kind_label_u8(0x00), "BD6");
    assert_eq!(kind_label_u8(0x01), "UID8");
    assert_eq!(kind_label_u8(0x02), "RAND16");
    assert_eq!(kind_label_u8(0x77), "UNK");
}

#[test]
fn kind_bytes_and_labels_agree() {
    for kind in [DeviceIdKind::BdAddr6, DeviceIdKind::Rp2040Uid8, DeviceIdKind::PersistentRand16] {
        assert_eq!(kind_label_u8(kind.to_kind_byte()), kind.as_str());
    }
}

#[test]
fn serialize_one_encounter() {
    let encounters = [EncounterLog { mac_addr: [1, 2, 3, 4, 5, 6], timestamp: 42, rssi: -40 }];
    let payload = ApiPayload {
        device_id: [0xAA, 0xBB, 0xCC, 0xDD, 0xEE, 0xFF],
        encounters: &encounters,
        reported_at: 1700000000,
    };
    let body = serialize_to_json(&payload);
    assert_eq!(
        body.as_str(),
        "{\"device_id\":\"aa:bb:cc:dd:ee:ff\",\"reported_at\":1700000000,\
         \"encounters\":[{\"mac_addr\":\"01:02:03:04:05:06\",\"timestamp\":42}]}"
    );
}

#[test]
fn serialize_empty_list_and_zero_time() {
    let payload = ApiPayload {
        device_id: [0, 0, 0, 0, 0, 0],
        encounters: &[],
        reported_at: 0,
    };
    let body = serialize_to_json(&payload);
    assert_eq!(
        body.as_str(),
        "{\"device_id\":\"00:00:00:00:00:00\",\"reported_at\":0,\"encounters\":[]}"
    );
}

#[test]
fn serialize_separates_encounters_with_commas() {
    let encounters = [
        EncounterLog { mac_addr: [1, 1, 1, 1, 1, 1], timestamp: 1, rssi: 0 },
        EncounterLog { mac_addr: [2, 2, 2, 2, 2, 2], timestamp: 2, rssi: 0 },
    ];
    let payload = ApiPayload { device_id: [9, 9, 9, 9, 9, 9], encounters: &encounters, reported_at: 3 };
    let body = serialize_to_json(&payload);
    assert_eq!(
        body.as_str(),
        "{\"device_id\":\"09:09:09:09:09:09\",\"reported_at\":3,\"encounters\":[\
         {\"mac_addr\":\"01:01:01:01:01:01\",\"timestamp\":1},\
         {\"mac_addr\":\"02:02:02:02:02:02\",\"timestamp\":2}]}"
    );
}

#[test]
fn request_head_lines() {
    let head = build_request_head("192.168.1.23", "/api/encounters", 123);
    assert_eq!(
        head.as_str(),
        "POST /api/encounters HTTP/1.1\r\nHost: 192.168.1.23\r\n\
         Content-Type: application/json\r\nConnection: close\r\nContent-Length: 123\r\n\r\n"
    );
}

#[test]
fn status_line_is_read() {
    assert_eq!(parse_http_status(b"HTTP/1.1 200 OK\r\n"), Some(200));
    assert_eq!(parse_http_status(b"HTTP/1.1 404 Not Found\r\n"), Some(404));
    assert_eq!(parse_http_status(b"HTTP/1.0 301 Moved\r\n"), Some(301));
}

#[test]
fn garbled_status_line_is_absent() {
    assert_eq!(parse_http_status(b"HTTP/1.1"), None);
    assert_eq!(parse_http_status(b"NOPE/1.1 200 OKOK"), None);
    assert_eq!(parse_http_status(b"HTTP/1.1 2x0 Bad digits"), None);
    assert_eq!(parse_http_status(b"HTTP/1.1 20"), None);
}

#[test]
fn only_2xx_and_unknown_count_as_delivered() {
    assert!(upload_accepted(Some(200)));
    assert!(upload_accepted(Some(299)));
    assert!(!upload_accepted(Some(300)));
    assert!(!upload_accepted(Some(404)));
    assert!(!upload_accepted(Some(199)));
    assert!(upload_accepted(None));
}

#[test]
fn normalization_pads_with_zeros() {
    let id = normalize6_to_16(&[1, 2, 3, 4, 5, 6]);
    assert_eq!(id, [1, 2, 3, 4, 5, 6, 0, 0, 0, 0, 0, 0, 0, 0, 0, 0]);
    let id = normalize8_to_16(&[1, 2, 3, 4, 5, 6, 7, 8]);
    assert_eq!(id, [1, 2, 3, 4, 5, 6, 7, 8, 0, 0, 0, 0, 0, 0, 0, 0]);
}

#[test]
fn device_id_prefers_the_radio_address() {
    let mac = [1, 2, 3, 4, 5, 6];
    let (id, kind) = select_device_id(&mac, Some([7, 7, 7, 7, 7, 7, 7, 7]), [9u8; 16]);
    assert_eq!(id, normalize6_to_16(&mac));
    assert_eq!(kind.to_kind_byte(), DeviceIdKind::BdAddr6.to_kind_byte());
}

#[test]
fn device_id_falls_back_in_order() {
    let zero = [0u8; 6];
    let (id, kind) = select_device_id(&zero, Some([7, 7, 7, 7, 7, 7, 7, 7]), [9u8; 16]);
    assert_eq!(id, normalize8_to_16(&[7, 7, 7, 7, 7, 7, 7, 7]));
    assert_eq!(kind.to_kind_byte(), DeviceIdKind::Rp2040Uid8.to_kind_byte());

    let (id, kind) = select_device_id(&zero, None, [9u8; 16]);
    assert_eq!(id, [9u8; 16]);
    assert_eq!(kind.to_kind_byte(), DeviceIdKind::PersistentRand16.to_kind_byte());
}

#[test]
fn no_flash_unique_id_is_exposed() {
    assert!(rp2040_uid8().is_none());
}

#[test]
fn tick_mixer_is_deterministic_and_spreads() {
    let a = mix16_from_ticks(12345);
    let b = mix16_from_ticks(12345);
    assert_eq!(a, b);
    let c = mix16_from_ticks(12346);
    assert_ne!(a, c);
    assert_ne!(a, [0u8; 16]);
}

#[test]
fn developer_mode_flag_is_exposed() {
    assert_eq!(is_developer_mode(), DEVELOPER_MODE);
}

#[test]
fn oversized_report_is_cut_to_a_leading_piece() {
    let mut encounters = Vec::new();
    for i in 0..60u8 {
        encounters.push(EncounterLog {
            mac_addr: [i, i, i, i, i, i],
            timestamp: 1700000000 + i as u64,
            rssi: -40,
        });
    }
    let payload = ApiPayload {
        device_id: [0xAA, 0xBB, 0xCC, 0xDD, 0xEE, 0xFF],
        encounters: &encounters,
        reported_at: 1700000100,
    };

    // The full text, built the same way a reader would by hand.
    let mut expect = String::new();
    expect.push_str("{\"device_id\":\"aa:bb:cc:dd:ee:ff\",\"reported_at\":1700000100,\"encounters\":[");
    for (i, e) in encounters.iter().enumerate() {
        if i > 0 {
            expect.push(',');
        }
        let m = e.mac_addr;
        expect.push_str(&format!(
            "{{\"mac_addr\":\"{:02x}:{:02x}:{:02x}:{:02x}:{:02x}:{:02x}\",\"timestamp\":{}}}",
            m[0], m[1], m[2], m[3], m[4], m[5], e.timestamp
        ));
    }
    expect.push_str("]}");
    assert!(expect.len() > 2048);

    let (body, complete) = serialize_to_json_checked(&payload);
    assert!(!complete);
    assert!(body.len() <= 2048);
    // The cut body is a leading piece of the full text.
    assert_eq!(body.as_str(), &expect[..body.len()]);
}

#[test]
fn fitting_report_is_complete() {
    let encounters = [EncounterLog { mac_addr: [1, 2, 3, 4, 5, 6], timestamp: 42, rssi: -40 }];
    let payload = ApiPayload {
        device_id: [0xAA, 0xBB, 0xCC, 0xDD, 0xEE, 0xFF],
        encounters: &encounters,
        reported_at: 7,
    };
    let (body, complete) = serialize_to_json_checked(&payload);
    assert!(complete);
    assert_eq!(body.as_str(), serialize_to_json(&payload).as_str());
}
