use dsmr_decoder::crc::{crc16_of, crc_hex_of};
use dsmr_decoder::decode::{decode_frame, Reader};
use dsmr_decoder::obis::parse_decimal;
use dsmr_decoder::timestamp::parse_timestamp;
use dsmr_decoder::types::{DecodeError, Decimal, State, Timestamp};

/// A complete frame: identification line, blank line, the given data
/// lines, the end marker and its four checksum digits.
fn frame_with(ident: &str, lines: &[&str]) -> Vec<u8> {
    let mut v: Vec<u8> = Vec::new();
    v.extend_from_slice(ident.as_bytes());
    v.extend_from_slice(b"\r\n\r\n");
    for l in lines {
        v.extend_from_slice(l.as_bytes());
        v.extend_from_slice(b"\r\n");
    }
    v.push(b'!');
    let c = crc16_of(&v, 0, v.len());
    let (h0, h1, h2, h3) = crc_hex_of(c);
    v.push(h0);
    v.push(h1);
    v.push(h2);
    v.push(h3);
    v.extend_from_slice(b"\r\n");
    v
}

fn decode_one(bytes: Vec<u8>) -> Option<Result<State, DecodeError>> {
    let mut r = Reader::new(bytes);
    r.next_telegram()
}

#[test]
fn crc_matches_the_standard_check_value() {
    // The well-known check value of the reflected 0xA001 CRC-16.
    let v: Vec<u8> = b"123456789".to_vec();
    assert_eq!(crc16_of(&v, 0, v.len()), 0xBB3D);
}

#[test]
fn timestamp_token_winter() {
    let v: Vec<u8> = b"200102184500W".to_vec();
    let t = parse_timestamp(&v, 0, v.len()).unwrap();
    assert_eq!(
        t,
        Timestamp { year: 20, month: 1, day: 2, hour: 18, minute: 45, second: 0, dst: false }
    );
}

#[test]
fn timestamp_token_summer() {
    let v: Vec<u8> = b"200102184500S".to_vec();
    let t = parse_timestamp(&v, 0, v.len()).unwrap();
    assert_eq!(
        t,
        Timestamp { year: 20, month: 1, day: 2, hour: 18, minute: 45, second: 0, dst: true }
    );
}

#[test]
fn timestamp_token_bad_flag_or_length() {
    let v: Vec<u8> = b"200102184500X".to_vec();
    assert_eq!(parse_timestamp(&v, 0, v.len()), None);
    let w: Vec<u8> = b"20010218450W".to_vec();
    assert_eq!(parse_timestamp(&w, 0, w.len()), None);
}

#[test]
fn decimal_tokens() {
    let v: Vec<u8> = b"00123.456*m3".to_vec();
    assert_eq!(parse_decimal(&v, 0, v.len()), Some(Decimal { mantissa: 123456, scale: 3 }));
    let w: Vec<u8> = b"42".to_vec();
    assert_eq!(parse_decimal(&w, 0, w.len()), Some(Decimal { mantissa: 42, scale: 0 }));
    let bad: Vec<u8> = b"12a.4".to_vec();
    assert_eq!(parse_decimal(&bad, 0, bad.len()), None);
}

#[test]
fn full_telegram_populates_every_target() {
    let f = frame_with(
        "/ISK5\\2M550E-1012",
        &[
            "0-0:1.0.0(190320181403W)",
            "1-0:1.8.1(000576.239*kWh)",
            "1-0:1.8.2(000465.162*kWh)",
            "1-0:2.8.1(000001.001*kWh)",
            "1-0:2.8.2(000002.002*kWh)",
            "0-0:96.14.0(0002)",
            "1-0:1.7.0(00.233*kW)",
            "1-0:2.7.0(00.100*kW)",
            "0-0:96.7.21(00009)",
            "0-0:96.7.9(00003)",
            "1-0:32.32.0(00005)",
            "1-0:52.32.0(00006)",
            "1-0:72.32.0(00007)",
            "1-0:32.36.0(00001)",
            "1-0:32.7.0(220.1*V)",
            "1-0:52.7.0(219.9*V)",
            "1-0:31.7.0(002*A)",
            "1-0:21.7.0(00.111*kW)",
            "1-0:22.7.0(00.222*kW)",
            "0-1:24.1.0(003)",
            "0-1:24.2.1(190320180000W)(00123.456*m3)",
        ],
    );
    let st = decode_one(f).unwrap().unwrap();
    let ts = Timestamp { year: 19, month: 3, day: 20, hour: 18, minute: 14, second: 3, dst: false };
    assert_eq!(st.datetime, Some(ts));
    assert_eq!(st.meterreading1.to, Some(Decimal { mantissa: 576239, scale: 3 }));
    assert_eq!(st.meterreading2.to, Some(Decimal { mantissa: 465162, scale: 3 }));
    assert_eq!(st.meterreading1.by, Some(Decimal { mantissa: 1001, scale: 3 }));
    assert_eq!(st.meterreading2.by, Some(Decimal { mantissa: 2002, scale: 3 }));
    assert_eq!(st.tariff_indicator, Some((0, 2)));
    assert_eq!(st.power_delivered, Some(Decimal { mantissa: 233, scale: 3 }));
    assert_eq!(st.power_received, Some(Decimal { mantissa: 100, scale: 3 }));
    assert_eq!(st.power_failures, Some(9));
    assert_eq!(st.long_power_failures, Some(3));
    assert_eq!(st.line1.voltage_sags, Some(5));
    assert_eq!(st.line2.voltage_sags, Some(6));
    assert_eq!(st.line3.voltage_sags, Some(7));
    assert_eq!(st.line1.voltage_swells, Some(1));
    assert_eq!(st.line2.voltage_swells, None);
    assert_eq!(st.line1.voltage, Some(Decimal { mantissa: 2201, scale: 1 }));
    assert_eq!(st.line2.voltage, Some(Decimal { mantissa: 2199, scale: 1 }));
    assert_eq!(st.line3.voltage, None);
    assert_eq!(st.line1.current, Some(2));
    assert_eq!(st.line1.active_power_plus, Some(Decimal { mantissa: 111, scale: 3 }));
    assert_eq!(st.line1.active_power_neg, Some(Decimal { mantissa: 222, scale: 3 }));
    assert_eq!(st.slave1.device_type, Some(3));
    let gas_ts =
        Timestamp { year: 19, month: 3, day: 20, hour: 18, minute: 0, second: 0, dst: false };
    assert_eq!(st.slave1.meter_reading, Some((gas_ts, Decimal { mantissa: 123456, scale: 3 })));
    // Fields with no corresponding line stay unset.
    assert_eq!(st.slave2.device_type, None);
    assert_eq!(st.slave2.meter_reading, None);
    assert_eq!(st.line3.current, None);
}

#[test]
fn sub_meter_line_leaves_other_slaves_unset() {
    let f = frame_with("/ISK5\\2M550E-1012", &["0-1:24.2.1(200102184500W)(00123.456*m3)"]);
    let st = decode_one(f).unwrap().unwrap();
    let ts = Timestamp { year: 20, month: 1, day: 2, hour: 18, minute: 45, second: 0, dst: false };
    assert_eq!(st.slave1.meter_reading, Some((ts, Decimal { mantissa: 123456, scale: 3 })));
    assert_eq!(st.slave1.device_type, None);
    for s in [&st.slave2, &st.slave3, &st.slave4] {
        assert_eq!(s.device_type, None);
        assert_eq!(s.meter_reading, None);
    }
    assert_eq!(st.datetime, None);
}

#[test]
fn sub_meter_channels_two_to_four() {
    let f = frame_with(
        "/XXX5ID",
        &[
            "0-2:24.1.0(007)",
            "0-3:24.2.1(200102184500W)(00000000.0000)",
            "0-4:24.1.0()",
        ],
    );
    let st = decode_one(f).unwrap().unwrap();
    assert_eq!(st.slave2.device_type, Some(7));
    // The all-zero placeholder reading means: no capture.
    assert_eq!(st.slave3.meter_reading, None);
    // An empty device-type group means: no device type.
    assert_eq!(st.slave4.device_type, None);
}

#[test]
fn unknown_reference_codes_are_ignored() {
    let f = frame_with(
        "/KFM5KAIFA-METER",
        &[
            "1-3:0.2.8(50)",
            "0-0:96.1.1(4530303433303037303532383730313138)",
            "9-9:99.99.99(whatever)",
            "1-0:1.8.1(000576.239*kWh)",
        ],
    );
    let st = decode_one(f).unwrap().unwrap();
    assert_eq!(st.meterreading1.to, Some(Decimal { mantissa: 576239, scale: 3 }));
    assert_eq!(st.datetime, None);
    assert_eq!(st.tariff_indicator, None);
}

#[test]
fn bit_flip_in_content_yields_checksum_mismatch() {
    let mut f = frame_with("/ISK5\\2M550E-1012", &["1-0:1.8.1(000576.239*kWh)"]);
    // Flip one bit inside the content, not in the checksum digits.
    let j = f.iter().position(|&b| b == b'5').unwrap();
    f[j] ^= 1;
    match decode_one(f).unwrap() {
        Err(DecodeError::ChecksumMismatch { computed, found }) => {
            let (h0, h1, h2, h3) = crc_hex_of(computed);
            assert_ne!((h0, h1, h2, h3), found);
        }
        other => panic!("expected a checksum mismatch, got {:?}", other),
    }
}

#[test]
fn wrong_checksum_digits_yield_mismatch() {
    let mut f = frame_with("/ISK5\\2M550E-1012", &["1-0:1.8.1(000576.239*kWh)"]);
    let n = f.len();
    // The digits sit just before the trailing line break.
    f[n - 3] = if f[n - 3] == b'0' { b'1' } else { b'0' };
    assert!(matches!(
        decode_one(f),
        Some(Err(DecodeError::ChecksumMismatch { .. }))
    ));
}

#[test]
fn malformed_value_group_yields_obis_parse_error() {
    let f = frame_with("/ISK5\\2M550E-1012", &["1-0:1.8.1(abc)"]);
    assert_eq!(
        decode_one(f),
        Some(Err(DecodeError::ObisParse { reference: (1, 0, 1, 8, 1) }))
    );
}

#[test]
fn malformed_timestamp_yields_timestamp_format_error() {
    let f = frame_with("/ISK5\\2M550E-1012", &["0-0:1.0.0(200102184500X)"]);
    assert_eq!(
        decode_one(f),
        Some(Err(DecodeError::TimestampFormat { line_reference: Some((0, 0, 1, 0, 0)) }))
    );
}

#[test]
fn last_write_wins_within_one_frame() {
    let f = frame_with("/ISK5\\2M550E-1012", &["1-0:1.7.0(00.111*kW)", "1-0:1.7.0(00.999*kW)"]);
    let st = decode_one(f).unwrap().unwrap();
    assert_eq!(st.power_delivered, Some(Decimal { mantissa: 999, scale: 3 }));
}

#[test]
fn decoding_is_idempotent_and_frames_are_independent() {
    let f = frame_with("/ISK5\\2M550E-1012", &["1-0:1.8.1(000576.239*kWh)"]);
    let g = frame_with("/ISK5\\2M550E-1012", &["1-0:1.8.2(000001.000*kWh)"]);
    let mut both = f.clone();
    both.extend_from_slice(&g);

    let a = decode_one(f.clone()).unwrap().unwrap();
    let b = decode_one(f).unwrap().unwrap();
    assert_eq!(a, b);

    let mut r = Reader::new(both);
    let s1 = r.next_telegram().unwrap().unwrap();
    let s2 = r.next_telegram().unwrap().unwrap();
    assert!(r.next_telegram().is_none());
    assert_eq!(s1, a);
    assert_eq!(s1.meterreading1.to, Some(Decimal { mantissa: 576239, scale: 3 }));
    assert_eq!(s1.meterreading2.to, None);
    assert_eq!(s2.meterreading2.to, Some(Decimal { mantissa: 1000, scale: 3 }));
    assert_eq!(s2.meterreading1.to, None);
}

#[test]
fn truncated_frame_is_dropped_and_the_next_one_decodes() {
    // A frame interrupted before its end marker, then a complete one.
    let mut bytes: Vec<u8> = b"/KFM5KAIFA-METER\r\n\r\n1-0:1.8.1(000001.000*kWh)\r\n".to_vec();
    let good = frame_with("/ISK5\\2M550E-1012", &["1-0:1.8.1(000576.239*kWh)"]);
    bytes.extend_from_slice(&good);
    let mut r = Reader::new(bytes);
    let st = r.next_telegram().unwrap().unwrap();
    assert_eq!(st.meterreading1.to, Some(Decimal { mantissa: 576239, scale: 3 }));
    assert!(r.next_telegram().is_none());
    assert_eq!(r.end_diagnostics(), None);
}

#[test]
fn truncated_frame_at_end_yields_no_value_but_diagnostics() {
    let good = frame_with("/ISK5\\2M550E-1012", &["1-0:1.8.1(000576.239*kWh)"]);
    let mut bytes = good.clone();
    bytes.extend_from_slice(b"/ISK5\\2M550E-1012\r\n\r\n1-0:1.8.2(000001.0");
    let mut r = Reader::new(bytes);
    assert!(matches!(r.next_telegram(), Some(Ok(_))));
    // No end marker follows: no state and no error value for this call.
    assert!(r.next_telegram().is_none());
    assert!(r.next_telegram().is_none());
    assert_eq!(r.end_diagnostics(), Some(DecodeError::Framing));
}

#[test]
fn garbage_before_the_start_marker_is_skipped() {
    let good = frame_with("/ISK5\\2M550E-1012", &["0-0:96.7.21(00004)"]);
    let mut bytes: Vec<u8> = b"noise 123 !! noise\r\n".to_vec();
    bytes.extend_from_slice(&good);
    let st = decode_one(bytes).unwrap().unwrap();
    assert_eq!(st.power_failures, Some(4));
}

#[test]
fn checksum_free_variant_decodes_without_digits() {
    let mut v: Vec<u8> = Vec::new();
    v.extend_from_slice(b"/ISK5\\2M550E-1012\r\n\r\n1-0:2.7.0(00.100*kW)\r\n!");
    v.extend_from_slice(b"\r\n");
    let mut r = Reader::new_unchecked(v.clone());
    let st = r.next_telegram().unwrap().unwrap();
    assert_eq!(st.power_received, Some(Decimal { mantissa: 100, scale: 3 }));
    // The checking reader refuses the same bytes: the digits are missing,
    // so the frame never completes.
    let mut strict = Reader::new(v);
    assert!(strict.next_telegram().is_none());
}

#[test]
fn direct_frame_decode_matches_reader() {
    let f = frame_with("/ISK5\\2M550E-1012", &["0-0:96.14.0(0002)"]);
    let bang = f.iter().position(|&b| b == b'!').unwrap();
    let by_frame = decode_frame(&f, 0, bang, true).unwrap();
    let by_reader = decode_one(f).unwrap().unwrap();
    assert_eq!(by_frame, by_reader);
    assert_eq!(by_frame.tariff_indicator, Some((0, 2)));
}
