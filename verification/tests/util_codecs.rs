use port_mcp::model::config::PayloadEncoding;
use port_mcp::model::error::{DetailValue, DomainError, ErrorCode};
use port_mcp::util::encoding::{
    bytes_to_hex, hex_to_bytes, hex_to_str, str_to_hex, str_to_hex_with_limit, summarize_hex,
    summarize_text, text_to_bytes, validate_hex_input_with_limit,
};
use port_mcp::util::modbus::{
    crc16_modbus, pack_rtu, pack_rtu_with_hex_limit, unpack_rtu, ModbusMode, ModbusPackRequest,
    ModbusUnpackRequest,
};
use port_mcp::util::protocol::{
    classify_at, decode_slip_frame, decode_slip_frame_with_limit, encode_slip_payload,
    encode_slip_payload_with_limit, normalize_scpi, normalize_slip_payload, ProtocolKind,
};

fn detail<'a>(error: &'a DomainError, key: &str) -> Option<&'a DetailValue> {
    error
        .details
        .entries
        .iter()
        .find(|(k, _)| k == key)
        .map(|(_, v)| v)
}

fn detail_text(error: &DomainError, key: &str) -> Option<String> {
    match detail(error, key) {
        Some(DetailValue::Text(s)) => Some(s.clone()),
        _ => None,
    }
}

fn detail_number(error: &DomainError, key: &str) -> Option<u64> {
    match detail(error, key) {
        Some(DetailValue::Number(n)) => Some(*n),
        _ => None,
    }
}

#[test]
fn unit_text_and_hex_conversions_round_trip() {
    let hex = str_to_hex("ping").unwrap();
    assert_eq!(hex, "70696e67");
    assert_eq!(hex_to_str(&hex).unwrap(), "ping");
    assert_eq!(text_to_bytes("ping").unwrap(), b"ping");
    assert_eq!(hex_to_bytes("70696e67").unwrap(), b"ping");
}

#[test]
fn unit_hex_validation_rejects_invalid_input() {
    assert_eq!(hex_to_bytes("abc").unwrap_err().code, ErrorCode::InvalidHex);
    assert_eq!(hex_to_str("zz").unwrap_err().code, ErrorCode::InvalidHex);
}

#[test]
fn unit_hex_validation_rejects_oversized_output_bytes() {
    let max = 4usize;
    assert_eq!(
        validate_hex_input_with_limit(&"00".repeat(max), "hex", max).unwrap(),
        max
    );

    let error = validate_hex_input_with_limit(&"00".repeat(max + 1), "hex", max).unwrap_err();
    assert_eq!(error.code, ErrorCode::InvalidRange);
    assert_eq!(detail_text(&error, "field").as_deref(), Some("hex"));
    assert_eq!(detail_number(&error, "max"), Some(max as u64));
    assert_eq!(detail_number(&error, "actual"), Some(max as u64 + 1));
}

#[test]
fn unit_limited_text_conversion_rejects_oversized_input() {
    let error = str_to_hex_with_limit("abcde", "input_string", 4).unwrap_err();
    assert_eq!(error.code, ErrorCode::InvalidRange);
    assert_eq!(detail_text(&error, "field").as_deref(), Some("input_string"));
    assert_eq!(detail_number(&error, "max"), Some(4));
    assert_eq!(detail_number(&error, "actual"), Some(5));
}

#[test]
fn unit_hex_to_str_rejects_non_utf8_payload() {
    let error = hex_to_str("ff").unwrap_err();
    assert_eq!(error.code, ErrorCode::TextEncodingFailed);
    assert!(error.message.contains("UTF-8"));
}

#[test]
fn unit_summaries_truncate_and_preserve_encoding() {
    let text = summarize_text("0123456789", 4);
    assert_eq!(text.preview, "0123");
    assert!(text.truncated);
    assert_eq!(text.encoding, PayloadEncoding::Text);

    let hex = summarize_hex("70696e67", 2).unwrap();
    assert_eq!(hex.preview, "7069");
    assert!(hex.truncated);
    assert_eq!(hex.encoding, PayloadEncoding::Hex);
}

#[test]
fn hex_round_trips_every_byte_value() {
    let bytes: Vec<u8> = (0u8..=255).collect();
    let hex = bytes_to_hex(&bytes);
    assert_eq!(hex.len(), 512);
    assert!(hex.starts_with("000102"));
    assert!(hex.ends_with("fdfeff"));
    assert_eq!(hex_to_bytes(&hex).unwrap(), bytes);
    assert_eq!(hex_to_bytes("0AfF").unwrap(), vec![10, 255]);
    assert_eq!(hex_to_bytes(" 0a").unwrap_err().code, ErrorCode::InvalidHex);
}

#[test]
fn hex_input_with_odd_length_is_refused() {
    assert_eq!(hex_to_bytes("0").unwrap_err().code, ErrorCode::InvalidHex);
    assert_eq!(hex_to_bytes("").unwrap(), Vec::<u8>::new());
}

#[test]
fn text_summary_keeps_short_input_whole() {
    let text = summarize_text("ab", 4);
    assert_eq!(text.preview, "ab");
    assert!(!text.truncated);
    assert_eq!(text.input_bytes, 2);
}

#[test]
fn unit_modbus_rtu_pack_and_unpack_round_trip() {
    let packed = pack_rtu(ModbusPackRequest {
        mode: ModbusMode::Rtu,
        slave_id: 1,
        function_code: 3,
        address: 0x0010,
        data_or_hex: Some("0002".to_owned()),
        crc_check: true,
    })
    .unwrap();

    let unpacked = unpack_rtu(ModbusUnpackRequest {
        mode: ModbusMode::Rtu,
        frame_hex: packed.frame_hex.clone(),
        crc_check: true,
    })
    .unwrap();

    assert_eq!(unpacked.slave_id, 1);
    assert_eq!(unpacked.function_code, 3);
    assert_eq!(unpacked.address, Some(0x0010));
    assert_eq!(unpacked.data_hex, "0002");
    assert!(unpacked.checksum_valid);
}

#[test]
fn unit_modbus_rtu_unpack_rejects_bad_crc_when_requested() {
    let error = unpack_rtu(ModbusUnpackRequest {
        mode: ModbusMode::Rtu,
        frame_hex: "0103001000020000".to_owned(),
        crc_check: true,
    })
    .unwrap_err();
    assert_eq!(error.code, ErrorCode::ProtocolChecksumFailed);
}

#[test]
fn unit_modbus_rtu_unpack_reports_bad_crc_when_not_strict() {
    let unpacked = unpack_rtu(ModbusUnpackRequest {
        mode: ModbusMode::Rtu,
        frame_hex: "0103001000020000".to_owned(),
        crc_check: false,
    })
    .unwrap();

    assert!(!unpacked.checksum_valid);
    assert_eq!(unpacked.slave_id, 1);
    assert_eq!(unpacked.function_code, 3);
}

#[test]
fn unit_modbus_rtu_unpack_rejects_short_payload_without_panic() {
    for frame_hex in ["01030000", "0103000000"] {
        let error = unpack_rtu(ModbusUnpackRequest {
            mode: ModbusMode::Rtu,
            frame_hex: frame_hex.to_owned(),
            crc_check: false,
        })
        .unwrap_err();
        assert_eq!(error.code, ErrorCode::ProtocolFrameInvalid);
    }
}

#[test]
fn unit_modbus_rtu_pack_rejects_helper_oversized_payload() {
    let error = pack_rtu_with_hex_limit(
        ModbusPackRequest {
            mode: ModbusMode::Rtu,
            slave_id: 1,
            function_code: 3,
            address: 0x0010,
            data_or_hex: Some("0000".to_owned()),
            crc_check: true,
        },
        1,
    )
    .unwrap_err();
    assert_eq!(error.code, ErrorCode::InvalidRange);
}

#[test]
fn modbus_crc_matches_the_standard_check_value() {
    // CRC-16/MODBUS of "123456789" is 0x4B37.
    assert_eq!(crc16_modbus(b"123456789"), 0x4B37);
    assert_eq!(crc16_modbus(&[]), 0xFFFF);
}

#[test]
fn modbus_pack_appends_crc_low_byte_first() {
    let packed = pack_rtu(ModbusPackRequest {
        mode: ModbusMode::Rtu,
        slave_id: 1,
        function_code: 3,
        address: 0,
        data_or_hex: Some("000a".to_owned()),
        crc_check: true,
    })
    .unwrap();
    assert_eq!(packed.frame_hex, "01030000000ac5cd");
    assert_eq!(packed.crc_hex.as_deref(), Some("c5cd"));
    assert_eq!(packed.frame_bytes, 8);
}

#[test]
fn unit_scpi_normalization_and_at_classification_work() {
    let scpi = normalize_scpi("  *IDN?  ", Some(" "), Some("line")).unwrap();
    assert_eq!(scpi.normalized, "*IDN?");
    assert_eq!(scpi.response_class.as_deref(), Some("line"));
    let at = classify_at("AT+CGMI").unwrap();
    assert_eq!(at.response_class.as_deref(), Some("extended"));
}

#[test]
fn unit_scpi_rejects_oversized_expect_response() {
    let error = normalize_scpi("*IDN?", None, Some(&"x".repeat(513))).unwrap_err();
    assert_eq!(error.code, ErrorCode::InvalidRange);
}

#[test]
fn unit_slip_normalization_escapes_control_bytes() {
    let summary = normalize_slip_payload("c0db01").unwrap();
    assert!(summary.normalized.starts_with("c0"));
    assert_eq!(summary.kind, ProtocolKind::Slip);
}

#[test]
fn unit_slip_decode_recovers_payload_hex() {
    let decoded = decode_slip_frame("c0dbdc01c0").unwrap();
    assert_eq!(decoded.normalized, "c001");
    assert_eq!(decoded.payload_hex.as_deref(), Some("c001"));
    assert_eq!(decoded.response_class.as_deref(), Some("decoded"));

    let decoded = decode_slip_frame("c0dbddc0").unwrap();
    assert_eq!(decoded.normalized, "db");
    assert_eq!(decoded.payload_hex.as_deref(), Some("db"));
}

#[test]
fn unit_slip_decode_rejects_invalid_escape_sequences() {
    assert_eq!(
        decode_slip_frame("c0dbc0").unwrap_err().code,
        ErrorCode::ProtocolFrameInvalid
    );
    assert_eq!(
        decode_slip_frame("c0db00c0").unwrap_err().code,
        ErrorCode::ProtocolFrameInvalid
    );
}

#[test]
fn unit_slip_helpers_reject_oversized_payloads() {
    assert_eq!(
        encode_slip_payload_with_limit("0000", 1).unwrap_err().code,
        ErrorCode::InvalidRange
    );
    assert_eq!(
        encode_slip_payload_with_limit("c0", 3).unwrap_err().code,
        ErrorCode::InvalidRange
    );
    assert_eq!(
        decode_slip_frame_with_limit("c000c0", 2).unwrap_err().code,
        ErrorCode::InvalidRange
    );
}

#[test]
fn slip_encode_then_decode_gives_the_payload_back() {
    let encoded = encode_slip_payload("c0db7e").unwrap();
    assert_eq!(encoded.normalized, "c0dbdcdbdd7ec0");
    let decoded = decode_slip_frame(&encoded.normalized).unwrap();
    assert_eq!(decoded.payload_hex.as_deref(), Some("c0db7e"));
}

#[test]
fn at_classification_distinguishes_basic_commands() {
    let at = classify_at(" AT ").unwrap();
    assert_eq!(at.kind, ProtocolKind::At);
    assert_eq!(at.normalized, "AT");
    assert_eq!(at.response_class.as_deref(), Some("basic"));
    let custom = classify_at("ATI").unwrap();
    assert_eq!(custom.response_class.as_deref(), Some("custom"));
    assert_eq!(classify_at(&"A".repeat(257)).unwrap_err().code, ErrorCode::InvalidRange);
}

#[test]
fn hex_round_trips_come_back_in_lower_case() {
    assert_eq!(bytes_to_hex(&hex_to_bytes("ABcd09").unwrap()), "abcd09");

    let packed = pack_rtu(ModbusPackRequest {
        mode: ModbusMode::Rtu,
        slave_id: 7,
        function_code: 16,
        address: 0x0102,
        data_or_hex: Some("00AB".to_owned()),
        crc_check: true,
    })
    .unwrap();
    let unpacked = unpack_rtu(ModbusUnpackRequest {
        mode: ModbusMode::Rtu,
        frame_hex: packed.frame_hex.clone(),
        crc_check: true,
    })
    .unwrap();
    assert_eq!(unpacked.slave_id, 7);
    assert_eq!(unpacked.function_code, 16);
    assert_eq!(unpacked.address, Some(0x0102));
    assert_eq!(unpacked.data_hex, "00ab");
    assert!(unpacked.checksum_valid);
    assert_eq!(unpacked.crc_hex, packed.crc_hex);

    let encoded = encode_slip_payload("C0DB01").unwrap();
    let decoded = decode_slip_frame(&encoded.normalized).unwrap();
    assert_eq!(decoded.normalized, "c0db01");
    assert_eq!(decoded.payload_hex.as_deref(), Some("c0db01"));
    assert_eq!(decoded.response_class.as_deref(), Some("decoded"));
}

#[test]
fn codec_errors_carry_their_messages() {
    let error = hex_to_str("ff").unwrap_err();
    assert_eq!(error.message, "Hex payload cannot be decoded as UTF-8 text.");
    assert_eq!(error.recovery_hint, "Use UTF-8 text or `encoding=hex` instead.");
    let bad = normalize_slip_payload("zz").unwrap_err();
    let same = encode_slip_payload("zz").unwrap_err();
    assert_eq!(bad.message, same.message);
    assert_eq!(bad.recovery_hint, same.recovery_hint);
    let frame = decode_slip_frame("01").unwrap_err();
    assert_eq!(frame.message, "SLIP frame must start and end with 0xC0.");
    let short = unpack_rtu(ModbusUnpackRequest {
        mode: ModbusMode::Rtu,
        frame_hex: "0103".to_owned(),
        crc_check: true,
    })
    .unwrap_err();
    assert_eq!(short.message, "Modbus RTU frame is too short.");
    let crc = unpack_rtu(ModbusUnpackRequest {
        mode: ModbusMode::Rtu,
        frame_hex: "0103001000020000".to_owned(),
        crc_check: true,
    })
    .unwrap_err();
    assert_eq!(crc.message, "Modbus RTU CRC check failed.");
    assert_eq!(crc.recovery_hint, "Repack the frame or verify the payload and CRC bytes.");
    let long = classify_at(&"A".repeat(257)).unwrap_err();
    assert_eq!(long.message, "command exceeds the allowed length.");
    assert_eq!(long.recovery_hint, "Shorten the field to the allowed number of characters.");
}
