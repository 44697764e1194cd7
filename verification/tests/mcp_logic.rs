use port_mcp::mcp::debug::{
    debug_config_for_transport, debug_derived_defaults, exchange_follow_up, exchange_preflight,
    merge_exchange_pull, merge_serial_profile, merge_tcp_profile, resolve_close_handle,
    resolve_debug_transport, resolve_exchange_settings, DebugConfig, DebugProfile, SessionMode,
};
use port_mcp::mcp::params::{
    debug_clear_target_name, map_debug_clear_target, DebugClearTargetParam, DebugConnectParams,
    DebugExchangeParams, DebugPayloadDefaultsParams, DebugProfileParams, DebugPullDefaultsParams,
    DebugSerialProfileParams, DebugTcpProfileParams, EncodingParam, InstanceTypeParam,
    ModbusActionParam, ModbusHelperParams, ModbusModeParam, ParityParam, PortScanConfigParams,
    TcpModeParam, TcpUdpConfigParams,
};
use port_mcp::mcp::tools::{
    missing_scan_config_field, modbus_pack_request, modbus_unpack_request, network_config_for,
    network_scan_args, payload_with_limit, send_target_mode_name, validate_port_io_log_bytes,
    NetworkConfig,
};
use port_mcp::model::config::{Parity, PayloadEncoding, TcpMode};
use port_mcp::model::error::{DetailValue, DomainError, ErrorCategory, ErrorCode, ErrorDetails};
use port_mcp::model::limits::RuntimeLimits;
use port_mcp::model::redaction::Redactor;
use port_mcp::model::response::Warning;
use port_mcp::model::state::{InstanceState, InstanceType};
use port_mcp::runtime::buffers::{ClearTarget, PullResult};
use port_mcp::runtime::queues::SendTargetMode;
use port_mcp::service::{pull_timeout_as_empty, PortService};
use port_mcp::transport::common::TransportError;
use port_mcp::transport::serial::{summarize_serial_port, SerialPortKind};
use port_mcp::util::modbus::{pack_rtu, unpack_rtu};

fn serial_section(port: Option<&str>, baudrate: Option<u32>) -> DebugSerialProfileParams {
    DebugSerialProfileParams {
        port: port.map(str::to_owned),
        baudrate,
        data_bits: None,
        stop_bits: None,
        parity: None,
        flow_control: None,
        timeout_ms: None,
        encoding: None,
    }
}

fn empty_profile() -> DebugProfile {
    DebugProfile::from_params(DebugProfileParams {
        transport: None,
        serial: None,
        tcp: None,
        udp: None,
        visa: None,
        payload: None,
        pull: None,
        bound_handle_id: None,
    })
}

fn connect_params() -> DebugConnectParams {
    DebugConnectParams {
        transport: None,
        serial: None,
        tcp: None,
        udp: None,
        visa: None,
        reuse_bound_handle: false,
        bind_profile_handle: true,
    }
}

#[test]
fn instance_type_params_convert_to_instance_types() {
    assert_eq!(InstanceType::from(InstanceTypeParam::Serial), InstanceType::Serial);
    assert_eq!(InstanceType::from(InstanceTypeParam::Tcp), InstanceType::Tcp);
    assert_eq!(InstanceType::from(InstanceTypeParam::Udp), InstanceType::Udp);
    assert_eq!(InstanceType::from(InstanceTypeParam::Visa), InstanceType::Visa);
    assert_eq!(SessionMode::RequestContextDebug.as_str(), "request_context_debug");
    assert_eq!(map_debug_clear_target(DebugClearTargetParam::Rx), ClearTarget::Rx);
    assert_eq!(debug_clear_target_name(ClearTarget::All), "all");
    assert_eq!(send_target_mode_name(SendTargetMode::Broadcast), "broadcast");
}

#[test]
fn profile_merge_prefers_call_values_field_by_field() {
    let stored = serial_section(Some("COM3"), Some(9_600));
    let call = serial_section(None, Some(19_200));
    let merged = merge_serial_profile(Some(&stored), Some(&call));
    assert_eq!(merged.port.as_deref(), Some("COM3"));
    assert_eq!(merged.baudrate, Some(19_200));

    let merged = merge_serial_profile(None, None);
    assert_eq!(merged.port, None);
    assert_eq!(merged.baudrate, None);

    let tcp = DebugTcpProfileParams {
        mode: Some(TcpModeParam::Listen),
        host: None,
        port: None,
        bind_host: Some("127.0.0.1".to_owned()),
        bind_port: Some(9000),
        timeout_ms: None,
    };
    let merged = merge_tcp_profile(None, Some(&tcp));
    assert_eq!(merged.mode, Some(TcpModeParam::Listen));
    assert_eq!(merged.bind_port, Some(9000));
}

#[test]
fn debug_connect_builds_configs_from_profile_defaults() {
    let mut profile = empty_profile();
    profile.serial = Some(DebugSerialProfileParams {
        parity: Some(ParityParam::Even),
        ..serial_section(Some("COM5"), None)
    });
    let config = debug_config_for_transport(InstanceTypeParam::Serial, &Some(profile), &connect_params()).unwrap();
    match config {
        DebugConfig::Serial(c) => {
            assert_eq!(c.port, "COM5");
            assert_eq!(c.baudrate, 115_200);
            assert_eq!(c.parity, Parity::Even);
            assert_eq!(c.timeout_ms, 1_000);
        }
        _ => panic!("serial config expected"),
    }

    let missing = debug_config_for_transport(InstanceTypeParam::Serial, &None, &connect_params()).unwrap_err();
    assert_eq!(missing.code, ErrorCode::MissingRequiredField);
    let missing = debug_config_for_transport(InstanceTypeParam::Visa, &None, &connect_params()).unwrap_err();
    assert_eq!(missing.code, ErrorCode::MissingRequiredField);

    let mut params = connect_params();
    params.tcp = Some(DebugTcpProfileParams {
        mode: Some(TcpModeParam::Listen),
        host: None,
        port: None,
        bind_host: Some("127.0.0.1".to_owned()),
        bind_port: Some(9100),
        timeout_ms: Some(500),
    });
    match debug_config_for_transport(InstanceTypeParam::Tcp, &None, &params).unwrap() {
        DebugConfig::Tcp(c) => {
            assert_eq!(c.mode, TcpMode::Listen);
            assert_eq!(c.host, "127.0.0.1");
            assert_eq!(c.port, 9100);
            assert_eq!(c.timeout_ms, 500);
        }
        _ => panic!("tcp config expected"),
    }
    match debug_config_for_transport(InstanceTypeParam::Udp, &None, &connect_params()).unwrap() {
        DebugConfig::Udp(c) => {
            assert_eq!(c.bind_host, "");
            assert_eq!(c.bind_port, 0);
            assert_eq!(c.remote_host, None);
        }
        _ => panic!("udp config expected"),
    }
}

#[test]
fn exchange_settings_fall_back_to_the_profile() {
    let mut profile = empty_profile();
    profile.bound_handle_id = Some("h_tcp_001".to_owned());
    profile.payload = Some(DebugPayloadDefaultsParams {
        encoding: Some(EncodingParam::Hex),
        append_line_break: None,
    });
    profile.pull = Some(DebugPullDefaultsParams { max_bytes: Some(64), peer_id: Some("peer-1".to_owned()) });
    let params = DebugExchangeParams {
        handle_id: None,
        clear_before: None,
        data: Some("00".to_owned()),
        encoding: None,
        append_line_break: Some(true),
        pull_after: true,
        max_bytes: None,
        peer_id: None,
    };
    let settings = resolve_exchange_settings(&params, &Some(profile)).unwrap();
    assert_eq!(settings.handle_id, "h_tcp_001");
    assert!(settings.used_profile_handle);
    assert_eq!(settings.encoding, EncodingParam::Hex);
    assert!(settings.append_line_break);
    assert_eq!(settings.max_bytes, Some(64));
    assert_eq!(settings.peer_id.as_deref(), Some("peer-1"));

    let missing = resolve_exchange_settings(&params, &None).unwrap_err();
    assert_eq!(missing.code, ErrorCode::MissingRequiredField);
}

#[test]
fn debug_profile_keeps_sections_and_derives_defaults() {
    let profile = DebugProfile::from_params(DebugProfileParams {
        transport: Some(InstanceTypeParam::Serial),
        serial: Some(serial_section(Some("COM3"), Some(9_600))),
        tcp: None,
        udp: None,
        visa: None,
        payload: None,
        pull: None,
        bound_handle_id: Some(None),
    });
    assert_eq!(profile.transport, Some(InstanceTypeParam::Serial));
    assert_eq!(profile.bound_handle_id, None);
    let defaults = debug_derived_defaults(&profile);
    assert_eq!(defaults.encoding, EncodingParam::Text);
    assert!(!defaults.append_line_break);
    assert_eq!(defaults.max_bytes, 4096);
    assert_eq!(defaults.peer_id, None);
}

#[test]
fn tcp_udp_config_falls_back_between_host_fields() {
    let params = TcpUdpConfigParams {
        handle_id: "h_tcp_001".to_owned(),
        mode: TcpModeParam::Client,
        host: None,
        port: None,
        bind_host: Some("127.0.0.1".to_owned()),
        bind_port: Some(7000),
        remote_host: None,
        remote_port: None,
        timeout_ms: 1_000,
    };
    match network_config_for(params.clone(), InstanceType::Tcp).unwrap() {
        NetworkConfig::Tcp(c) => {
            assert_eq!(c.host, "127.0.0.1");
            assert_eq!(c.port, 7000);
        }
        NetworkConfig::Udp(_) => panic!("tcp config expected"),
    }
    match network_config_for(params.clone(), InstanceType::Udp).unwrap() {
        NetworkConfig::Udp(c) => {
            assert_eq!(c.bind_host, "127.0.0.1");
            assert_eq!(c.bind_port, 7000);
        }
        NetworkConfig::Tcp(_) => panic!("udp config expected"),
    }
    assert_eq!(
        network_config_for(params, InstanceType::Serial).unwrap_err().code,
        ErrorCode::TypeMismatch
    );
}

#[test]
fn send_payloads_respect_the_frame_limit() {
    let payload = payload_with_limit("ping", EncodingParam::Text, true, 8).unwrap();
    assert_eq!(payload.bytes, b"ping\n".to_vec());
    assert_eq!(payload.encoding, PayloadEncoding::Text);
    let error = payload_with_limit("0123456789", EncodingParam::Text, false, 8).unwrap_err();
    assert_eq!(error.code, ErrorCode::InvalidRange);
    let error = payload_with_limit("000000000000000000", EncodingParam::Hex, false, 8).unwrap_err();
    assert_eq!(error.code, ErrorCode::InvalidRange);
    assert_eq!(
        payload_with_limit("zz", EncodingParam::Hex, false, 8).unwrap_err().code,
        ErrorCode::InvalidHex
    );
}

fn modbus_params(action: ModbusActionParam) -> ModbusHelperParams {
    ModbusHelperParams {
        action,
        mode: ModbusModeParam::Rtu,
        slave_id: Some(1),
        function_code: Some(3),
        address: Some(0x0010),
        data_or_hex: Some("0002".to_owned()),
        frame_hex: None,
        crc_check: true,
    }
}

#[test]
fn modbus_helper_requests_round_trip() {
    let packed = pack_rtu(modbus_pack_request(modbus_params(ModbusActionParam::Pack)).unwrap()).unwrap();
    let mut unpack = modbus_params(ModbusActionParam::Unpack);
    unpack.frame_hex = Some(packed.frame_hex.clone());
    let unpacked = unpack_rtu(modbus_unpack_request(unpack).unwrap()).unwrap();
    assert_eq!(unpacked.slave_id, 1);
    assert_eq!(unpacked.address, Some(0x0010));
    assert_eq!(unpacked.data_hex, "0002");
}

#[test]
fn modbus_helper_requires_its_fields() {
    let error = modbus_unpack_request(modbus_params(ModbusActionParam::Unpack)).unwrap_err();
    assert_eq!(error.code, ErrorCode::MissingRequiredField);
    assert!(matches!(&error.details.entries[0].1, DetailValue::Text(f) if f == "frame_hex"));
    let mut params = modbus_params(ModbusActionParam::Pack);
    params.function_code = None;
    let error = modbus_pack_request(params).unwrap_err();
    assert_eq!(error.message, "Missing required field `function_code`.");
}

#[test]
fn network_scan_arguments_are_checked_in_order() {
    let limits = RuntimeLimits::default();
    let mut config = PortScanConfigParams::default();
    config.timeout_ms = limits.scan_total_timeout_ms + 1;
    config.host = Some("127.0.0.1".to_owned());
    assert_eq!(network_scan_args(config, &limits).unwrap_err().code, ErrorCode::InvalidRange);

    let mut config = PortScanConfigParams::default();
    config.timeout_ms = 100;
    let error = network_scan_args(config, &limits).unwrap_err();
    assert_eq!(error.code, ErrorCode::MissingRequiredField);
    assert_eq!(error.message, "port_scan config.host is required for network scans.");

    let mut config = PortScanConfigParams::default();
    config.timeout_ms = 100;
    config.host = Some("127.0.0.1".to_owned());
    config.start_port = Some(9000);
    config.end_port = Some(9010);
    config.max_concurrency = 4;
    let args = network_scan_args(config, &limits).unwrap();
    assert_eq!(args.end_port, 9010);
    assert_eq!(missing_scan_config_field("end_port").code, ErrorCode::MissingRequiredField);
}

#[test]
fn unit_redaction_removes_sensitive_paths_users_env_payload_and_os_text() {
    let redactor = Redactor;
    let details = ErrorDetails::new()
        .with("path", redactor.local_path("C:\\Users\\alice\\secret\\device.log"))
        .with("env", redactor.env_value("PORT_MCP_TOKEN", "secret-token"))
        .with("payload", redactor.payload_preview(b"abcdefghijklmnopqrstuvwxyz", 8))
        .with("os_error", redactor.os_error("permission denied at C:\\Users\\alice\\secret"))
        .with("stack", redactor.stack_trace("panic at C:\\Users\\alice\\main.rs:1"));

    let rendered = format!("{:?}", details);
    assert!(!rendered.contains("alice"));
    assert!(!rendered.contains("secret-token"));
    assert!(!rendered.contains("abcdefghijklmnopqrstuvwxyz"));
    let value = |key: &str| details.entries.iter().find(|(k, _)| k == key).map(|(_, v)| v.clone()).unwrap();
    assert!(matches!(value("path"), DetailValue::Text(p) if p == "device.log"));
    match value("env") {
        DetailValue::Fields(f) => assert_eq!(
            f,
            vec![
                ("name".to_owned(), "PORT_MCP_TOKEN".to_owned()),
                ("value".to_owned(), "<redacted>".to_owned())
            ]
        ),
        other => panic!("unexpected {other:?}"),
    }
    match value("payload") {
        DetailValue::Fields(f) => assert!(f.contains(&("omitted_bytes".to_owned(), "18".to_owned()))),
        other => panic!("unexpected {other:?}"),
    }
    match value("os_error") {
        DetailValue::Fields(f) => assert_eq!(f[0], ("io_kind".to_owned(), "permission_denied".to_owned())),
        other => panic!("unexpected {other:?}"),
    }
    assert!(matches!(value("stack"), DetailValue::Text(s) if s == "<redacted>"));
    assert!(matches!(Redactor.local_path("plain.txt"), DetailValue::Text(s) if s == "plain.txt"));
}

#[test]
fn warnings_and_error_names() {
    let warning = Warning::new("rx_buffer_truncated", "Older bytes were dropped.");
    assert_eq!(warning.code, "rx_buffer_truncated");
    assert_eq!(warning.message, "Older bytes were dropped.");
    assert_eq!(ErrorCode::SessionIdUnavailable.name(), "SESSION_ID_UNAVAILABLE");
    assert_eq!(ErrorCategory::InvalidState.name(), "InvalidState");
    assert_eq!(ErrorCode::TxFrameTooLarge.name(), "TX_FRAME_TOO_LARGE");
}

#[test]
fn port_service_previews_payloads_and_maps_scan_failures() {
    let summary = PortService::summarize_payload(&[0x41; 5000], PayloadEncoding::Text);
    assert_eq!(summary.preview.len(), 4096);
    assert_eq!(summary.omitted_bytes, 904);
    assert!(summary.truncated);

    let service = PortService::new();
    let error = service
        .scan_serial(Err(TransportError::invalid_address("serial port was not found")))
        .unwrap_err();
    assert_eq!(error.code, ErrorCode::InvalidAddress);
    assert!(!error.retryable);
    assert_eq!(
        error.recovery_hint,
        "Check serial device permissions and driver state, then retry port_scan."
    );
    let ports = service.scan_serial(Ok(vec![summarize_serial_port("COM3", SerialPortKind::Pci)])).unwrap();
    assert_eq!(ports[0].display, "COM3 (pci)");
    assert_eq!(
        summarize_serial_port("ttyUSB0", SerialPortKind::Usb { vid: 0x0403, pid: 0x6001 }).port_type,
        "usb vid=0403 pid=6001"
    );
    assert_eq!(
        service.scan_visa("?*INSTR", 8).unwrap_err().code,
        ErrorCode::FeatureNotCompiled
    );
}

fn pulled(bytes: &[u8], truncated: bool) -> PullResult {
    PullResult { bytes: bytes.to_vec(), truncated, remaining_rx_buffer_bytes: 0, source: None }
}

#[test]
fn exchange_pulls_serial_replies_twice_within_the_limit() {
    let first = pulled(b"abc", false);
    assert_eq!(exchange_follow_up(InstanceType::Serial, &first, Some(10)), Some(Some(7)));
    assert_eq!(exchange_follow_up(InstanceType::Serial, &first, None), Some(None));
    assert_eq!(exchange_follow_up(InstanceType::Serial, &first, Some(3)), None);
    assert_eq!(exchange_follow_up(InstanceType::Tcp, &first, Some(10)), None);
    assert_eq!(exchange_follow_up(InstanceType::Serial, &pulled(b"", false), Some(10)), None);
    assert_eq!(exchange_follow_up(InstanceType::Serial, &pulled(b"abc", true), Some(10)), None);
}

#[test]
fn exchange_merge_appends_second_pull_and_tolerates_timeout() {
    let mut next = pulled(b"def", true);
    next.remaining_rx_buffer_bytes = 5;
    let (merged, attempts, late) = merge_exchange_pull(pulled(b"abc", false), Ok(next)).unwrap();
    assert_eq!(merged.bytes, b"abcdef".to_vec());
    assert!(merged.truncated);
    assert_eq!(merged.remaining_rx_buffer_bytes, 5);
    assert_eq!((attempts, late), (2, false));

    let (kept, attempts, late) =
        merge_exchange_pull(pulled(b"abc", false), Err(DomainError::read_timeout())).unwrap();
    assert_eq!(kept.bytes, b"abc".to_vec());
    assert_eq!((attempts, late), (2, true));

    let failure = DomainError::protocol_frame_invalid("bad frame", "retry");
    let error = merge_exchange_pull(pulled(b"abc", false), Err(failure)).unwrap_err();
    assert_eq!(error.code, ErrorCode::ProtocolFrameInvalid);
}

#[test]
fn debug_transport_and_close_handle_fall_back_to_profile() {
    let mut profile = empty_profile();
    assert_eq!(resolve_debug_transport(Some(InstanceTypeParam::Udp), &Some(profile.clone())).unwrap(), InstanceTypeParam::Udp);
    let error = resolve_debug_transport(None, &Some(profile.clone())).unwrap_err();
    assert_eq!(error.code, ErrorCode::MissingRequiredField);
    assert!(matches!(error.details.entries[0].1, DetailValue::Text(ref f) if f == "transport"));
    profile.transport = Some(InstanceTypeParam::Tcp);
    assert_eq!(resolve_debug_transport(None, &Some(profile.clone())).unwrap(), InstanceTypeParam::Tcp);

    let error = resolve_close_handle(&None, &None).unwrap_err();
    assert_eq!(error.code, ErrorCode::MissingRequiredField);
    profile.bound_handle_id = Some("tcp-1".to_owned());
    assert_eq!(resolve_close_handle(&None, &Some(profile.clone())).unwrap(), "tcp-1");
    assert_eq!(resolve_close_handle(&Some("udp-2".to_owned()), &Some(profile)).unwrap(), "udp-2");
}

#[test]
fn exchange_preflight_requires_connected_instances() {
    assert_eq!(exchange_preflight(InstanceType::Serial, InstanceState::Connected).unwrap(), InstanceType::Serial);
    let error = exchange_preflight(InstanceType::Tcp, InstanceState::Configured).unwrap_err();
    assert_eq!(error.category, ErrorCategory::InvalidState);
    assert_eq!(error.code, ErrorCode::StateNotAllowed);
    assert!(matches!(error.details.entries[0].1, DetailValue::Text(ref s) if s == "Configured"));
}

#[test]
fn port_io_log_bytes_are_bounded() {
    assert_eq!(validate_port_io_log_bytes(0).unwrap(), 0);
    assert_eq!(validate_port_io_log_bytes(65_536).unwrap(), 65_536);
    let error = validate_port_io_log_bytes(65_537).unwrap_err();
    assert_eq!(error.code, ErrorCode::InvalidRange);
    assert!(matches!(error.details.entries[2].1, DetailValue::Number(65_537)));
}

#[test]
fn phase1_debug_exchange_pull_aggregates_split_serial_response() {
    let first = pulled(&[0x01], false);
    let limit = exchange_follow_up(InstanceType::Serial, &first, Some(16));
    assert_eq!(limit, Some(Some(15)));
    let next = pulled(&[0x08, 0x00, 0x00, 0x12, 0x34, 0xED, 0x7C], false);

    let (result, attempts, completed_after_timeout) = merge_exchange_pull(first, Ok(next)).unwrap();

    assert_eq!(attempts, 2);
    assert!(!completed_after_timeout);
    assert_eq!(result.bytes, vec![0x01, 0x08, 0x00, 0x00, 0x12, 0x34, 0xED, 0x7C]);
}

#[test]
fn buffered_pull_time_out_is_an_empty_pull() {
    let empty = pull_timeout_as_empty(Err(DomainError::read_timeout())).unwrap();
    assert!(empty.bytes.is_empty());
    assert!(!empty.truncated);
    let other = pull_timeout_as_empty(Err(DomainError::session_id_unavailable())).unwrap_err();
    assert_eq!(other.code, ErrorCode::SessionIdUnavailable);
}
