use port_mcp::model::config::{
    validate_instance_type, validate_required_field, validate_tcp_port, DataBits, FlowControl,
    InstanceStats, Parity, PayloadEncoding, ResourceSummary, SerialConfig, StopBits, TcpConfig,
    UdpConfig, VisaConfig,
};
use port_mcp::model::data::{Payload, PayloadSummary};
use port_mcp::model::error::{DetailValue, DomainError, ErrorCategory, ErrorCode};
use port_mcp::model::ids::{HandleId, IdGenerator, RequestId, Timestamp};
use port_mcp::model::limits::{RuntimeLimits, ABS_MAX_TOTAL_BUFFER_BYTES, ABS_MAX_TOTAL_QUEUED_BYTES};
use port_mcp::model::state::{InstanceState, InstanceType};

#[test]
fn unit_payload_summary_handles_text_hex_line_break_truncation_and_datagrams() {
    let text = Payload::from_text("ping", true).unwrap();
    assert_eq!(text.bytes, b"ping\n");
    assert_eq!(text.encoding, PayloadEncoding::Text);

    let hex = Payload::from_hex("70696e67", false).unwrap();
    assert_eq!(hex.bytes, b"ping");
    assert_eq!(hex.encoding, PayloadEncoding::Hex);
    assert_eq!(
        Payload::from_hex("abc", false).unwrap_err().code,
        ErrorCode::InvalidHex
    );

    let summary = PayloadSummary::from_bytes(b"0123456789", PayloadEncoding::Text, 4, true);
    assert_eq!(summary.preview, "0123");
    assert_eq!(summary.payload_bytes, 10);
    assert_eq!(summary.omitted_bytes, 6);
    assert!(summary.truncated);
    assert!(summary.datagram);
}

#[test]
fn payload_summary_in_hex_shows_the_bytes_as_hex() {
    let summary = PayloadSummary::from_bytes(&[0xde, 0xad, 0xbe], PayloadEncoding::Hex, 8, false);
    assert_eq!(summary.preview, "deadbe");
    assert_eq!(summary.omitted_bytes, 0);
    assert!(!summary.truncated);
    assert!(!summary.datagram);
}

#[test]
fn unit_state_model_serializes_documented_names_and_summary_shape() {
    assert_eq!(InstanceType::Serial.name(), "Serial");
    assert_eq!(InstanceType::Tcp.name(), "TCP");
    assert_eq!(InstanceType::Udp.name(), "UDP");
    assert_eq!(InstanceType::Visa.name(), "Visa");
    let names: Vec<&str> = [
        InstanceState::Created,
        InstanceState::Configured,
        InstanceState::Connected,
        InstanceState::Disconnecting,
        InstanceState::Disconnected,
        InstanceState::Error,
        InstanceState::Released,
    ]
    .iter()
    .map(|s| s.name())
    .collect();
    assert_eq!(
        names,
        vec![
            "Created",
            "Configured",
            "Connected",
            "Disconnecting",
            "Disconnected",
            "Error",
            "Released"
        ]
    );
    assert!(!InstanceState::Released.is_persistent());
    assert_eq!(HandleId::new_for_type(InstanceType::Tcp, 7).as_str(), "h_tcp_007");
    let tcp = ResourceSummary::tcp("127.0.0.1", 9000);
    assert_eq!(tcp.kind, "tcp-client");
    assert_eq!(tcp.display, "127.0.0.1:9000");
    assert_eq!(InstanceStats::default().rx_buffer_bytes, 0);
    let serial = ResourceSummary::serial("COM3");
    assert_eq!(serial.kind, "serial");
    assert_eq!(serial.display, "COM3");
    assert_eq!(serial.resource_class, None);
    let visa = ResourceSummary::visa("TCPIP0::192.168.1.10::INSTR", Some("tcpip"));
    assert_eq!(visa.kind, "visa");
    assert_eq!(visa.display, "TCPIP0::192.168.1.10::INSTR");
    assert_eq!(visa.resource_class.as_deref(), Some("tcpip"));
}

#[test]
fn unit_argument_validation_covers_config_defaults_and_errors() {
    let serial = SerialConfig::new("COM3");
    assert_eq!(serial.baudrate, 115_200);
    assert_eq!(serial.data_bits, DataBits::Eight);
    assert_eq!(serial.stop_bits, StopBits::One);
    assert_eq!(serial.parity, Parity::Disabled);
    assert_eq!(serial.flow_control, FlowControl::Disabled);
    assert_eq!(serial.timeout_ms, 1_000);
    assert_eq!(serial.encoding, PayloadEncoding::Text);

    assert_eq!(validate_required_field("port", Some("COM3")).unwrap(), "COM3");
    assert_eq!(
        validate_required_field("port", None).unwrap_err().code,
        ErrorCode::MissingRequiredField
    );
    assert_eq!(validate_tcp_port(70_000).unwrap_err().code, ErrorCode::InvalidRange);
    assert_eq!(
        validate_instance_type(InstanceType::Serial, InstanceType::Tcp)
            .unwrap_err()
            .code,
        ErrorCode::TypeMismatch
    );
    assert_eq!(HandleId::new_for_type(InstanceType::Visa, 1).as_str(), "h_visa_001");
    assert_eq!(
        TcpConfig::client("0.0.0.0", 9000)
            .validate_remote(&RuntimeLimits::default())
            .unwrap_err()
            .code,
        ErrorCode::ScanTargetNotAllowed
    );
}

#[test]
fn required_field_keeps_given_values_and_tcp_port_bounds() {
    assert_eq!(validate_required_field("port", Some("   ")).unwrap(), "   ");
    assert_eq!(validate_tcp_port(0).unwrap(), 0);
    assert_eq!(validate_tcp_port(65_536).unwrap_err().code, ErrorCode::InvalidRange);
    assert_eq!(validate_tcp_port(65_535).unwrap(), 65_535);
    assert!(validate_instance_type(InstanceType::Udp, InstanceType::Udp).is_ok());
}

#[test]
fn unit_error_codes_cover_m1_required_categories_and_details() {
    let cases = [
        (ErrorCategory::HandleNotFound, ErrorCode::HandleNotFound),
        (ErrorCategory::HandleNotFound, ErrorCode::HandleReleased),
        (
            ErrorCategory::HandleNotFound,
            ErrorCode::SessionBindingMissing,
        ),
        (ErrorCategory::InvalidState, ErrorCode::StateNotAllowed),
        (ErrorCategory::InvalidState, ErrorCode::ConfigRequired),
        (
            ErrorCategory::InvalidState,
            ErrorCode::ConnectedReleaseRequiresForce,
        ),
        (ErrorCategory::InvalidState, ErrorCode::SessionIdUnavailable),
        (
            ErrorCategory::InvalidArgument,
            ErrorCode::MissingRequiredField,
        ),
        (ErrorCategory::InvalidArgument, ErrorCode::InvalidFieldType),
        (ErrorCategory::InvalidArgument, ErrorCode::InvalidEnumValue),
        (ErrorCategory::InvalidArgument, ErrorCode::InvalidRange),
        (ErrorCategory::InvalidArgument, ErrorCode::TypeMismatch),
        (ErrorCategory::InvalidArgument, ErrorCode::InvalidAddress),
        (ErrorCategory::InvalidArgument, ErrorCode::InvalidHex),
        (
            ErrorCategory::InvalidArgument,
            ErrorCode::TextEncodingFailed,
        ),
        (
            ErrorCategory::InvalidArgument,
            ErrorCode::ProtocolFrameInvalid,
        ),
        (
            ErrorCategory::InvalidArgument,
            ErrorCode::ProtocolChecksumFailed,
        ),
        (ErrorCategory::ResourceBusy, ErrorCode::SerialPortBusy),
        (ErrorCategory::ResourceBusy, ErrorCode::VisaResourceBusy),
        (ErrorCategory::ResourceBusy, ErrorCode::TcpListenAddrBusy),
        (ErrorCategory::ResourceBusy, ErrorCode::UdpBindAddrBusy),
        (ErrorCategory::ResourceBusy, ErrorCode::ResourceClosing),
        (ErrorCategory::ResourceBusy, ErrorCode::ResourceLockStale),
        (ErrorCategory::ConnectTimeout, ErrorCode::ConnectTimeout),
        (ErrorCategory::ConnectTimeout, ErrorCode::SerialOpenTimeout),
        (ErrorCategory::ConnectTimeout, ErrorCode::VisaOpenTimeout),
        (ErrorCategory::ConnectTimeout, ErrorCode::ScanTimeout),
        (ErrorCategory::ReadTimeout, ErrorCode::ReadTimeout),
        (ErrorCategory::ReadTimeout, ErrorCode::NoDataAvailable),
        (ErrorCategory::WriteFailed, ErrorCode::WriteIoFailed),
        (ErrorCategory::WriteFailed, ErrorCode::ReadIoFailed),
        (ErrorCategory::WriteFailed, ErrorCode::TransportClosed),
        (ErrorCategory::WriteFailed, ErrorCode::TaskFailed),
        (ErrorCategory::WriteFailed, ErrorCode::DisconnectFailed),
        (ErrorCategory::WriteFailed, ErrorCode::TxQueueClosed),
        (ErrorCategory::BufferLimitExceeded, ErrorCode::TxQueueFull),
        (
            ErrorCategory::BufferLimitExceeded,
            ErrorCode::TxFrameTooLarge,
        ),
        (
            ErrorCategory::BufferLimitExceeded,
            ErrorCode::PullMaxBytesExceeded,
        ),
        (
            ErrorCategory::BufferLimitExceeded,
            ErrorCode::SubscriberPayloadTooLarge,
        ),
        (
            ErrorCategory::BufferLimitExceeded,
            ErrorCode::SubscriberLimitExceeded,
        ),
        (
            ErrorCategory::BufferLimitExceeded,
            ErrorCode::ScanRangeTooLarge,
        ),
        (
            ErrorCategory::BufferLimitExceeded,
            ErrorCode::ResultTooLarge,
        ),
        (ErrorCategory::InvalidState, ErrorCode::FeatureNotCompiled),
        (
            ErrorCategory::InvalidState,
            ErrorCode::VisaRuntimeUnavailable,
        ),
        (ErrorCategory::WriteFailed, ErrorCode::VisaEnumFailed),
        (ErrorCategory::WriteFailed, ErrorCode::VisaOpenFailed),
        (ErrorCategory::WriteFailed, ErrorCode::VisaWriteFailed),
        (ErrorCategory::WriteFailed, ErrorCode::VisaReadFailed),
        (ErrorCategory::WriteFailed, ErrorCode::VisaQueryIdnFailed),
        (
            ErrorCategory::InvalidArgument,
            ErrorCode::VisaResourceNotFound,
        ),
    ];
    for (category, code) in cases {
        let error = DomainError::new(category, code, "message", "hint", false)
            .with_detail("field", DetailValue::Text("timeout_ms".to_owned()));
        assert_eq!(error.category, category);
        assert_eq!(error.code, code);
        assert_eq!(error.details.entries.len(), 1);
        assert_eq!(error.details.entries[0].0, "field");
        assert!(matches!(&error.details.entries[0].1, DetailValue::Text(s) if s == "timeout_ms"));
    }

    let retryable = DomainError::read_timeout();
    assert!(retryable.retryable);
    assert_eq!(retryable.category, ErrorCategory::ReadTimeout);
    assert_eq!(retryable.code, ErrorCode::ReadTimeout);

    let session = DomainError::session_id_unavailable();
    assert_eq!(session.category, ErrorCategory::InvalidState);
    assert_eq!(session.code, ErrorCode::SessionIdUnavailable);
    assert!(!session.retryable);
}

#[test]
fn unit_ids_time_generates_readable_unique_ids_and_rfc3339_timestamp() {
    let mut generator = IdGenerator::new_for_tests("20260526");
    assert_eq!(generator.next_request_id().as_str(), "req_20260526_000001");
    assert_eq!(generator.next_request_id().as_str(), "req_20260526_000002");
    assert_eq!(generator.next_error_id().as_str(), "err_20260526_000001");
    assert_eq!(generator.next_handle_id(InstanceType::Serial).as_str(), "h_ser_001");
    assert_eq!(generator.next_handle_id(InstanceType::Udp).as_str(), "h_udp_001");
    assert_eq!(generator.next_handle_id(InstanceType::Serial).as_str(), "h_ser_002");

    let timestamp = Timestamp::now_utc().unwrap();
    assert!(timestamp.as_str().ends_with('Z'));
    assert!(Timestamp::from_rfc3339(timestamp.as_str()).is_ok());
}

#[test]
fn timestamp_parsing_normalises_and_rejects_garbage() {
    let ts = Timestamp::from_rfc3339("2026-05-26T00:00:00.000Z").unwrap();
    assert_eq!(ts.as_str(), "2026-05-26T00:00:00.000Z");
    let error = Timestamp::from_rfc3339("yesterday").unwrap_err();
    assert_eq!(error.code, ErrorCode::InvalidFieldType);
    assert_eq!(RequestId::new(1).as_str(), "req_20260526_000001");
}

#[test]
fn unit_limits_defines_defaults_hard_limits_and_range_errors() {
    let limits = RuntimeLimits::default();
    assert_eq!(limits.tx_queue_max_items, 256);
    assert_eq!(limits.tx_frame_max_bytes, 64 * 1024);
    assert_eq!(limits.rx_buffer_max_bytes, 1024 * 1024);
    assert_eq!(limits.pull_default_max_bytes, 4 * 1024);
    assert_eq!(limits.pull_max_bytes, 64 * 1024);
    assert_eq!(limits.subscriber_queue_max_items, 128);
    assert_eq!(limits.subscriber_payload_max_bytes, 16 * 1024);
    assert_eq!(limits.subscriber_notifications_per_sec, 64);
    assert_eq!(limits.instance_notifications_per_sec, 256);
    assert_eq!(limits.global_notifications_per_sec, 1024);
    assert_eq!(limits.notification_burst, 128);
    assert_eq!(limits.scan_max_concurrency, 64);
    assert_eq!(limits.scan_max_ports, 256);
    assert_eq!(limits.scan_total_timeout_ms, 10_000);
    assert_eq!(limits.io_timeout_max_ms, 30_000);
    assert_eq!(limits.max_instances, 64);
    assert_eq!(limits.max_subscribers_per_instance, 32);
    assert_eq!(limits.max_total_buffer_bytes, 128 * 1024 * 1024);
    assert_eq!(limits.max_total_queued_bytes, 64 * 1024 * 1024);
    assert_eq!(limits.force_close_deadline_ms, 5_000);
    assert!(!limits.allow_non_loopback_network);
    assert!(limits.network_allowed_hosts.is_empty());

    assert!(ABS_MAX_TOTAL_BUFFER_BYTES >= limits.max_total_buffer_bytes);
    assert!(ABS_MAX_TOTAL_QUEUED_BYTES >= limits.max_total_queued_bytes);
    assert_eq!(
        limits.validate_force_close_deadline(0).unwrap_err().code,
        ErrorCode::InvalidRange
    );
    assert_eq!(
        limits.validate_pull_max_bytes(128 * 1024).unwrap_err().code,
        ErrorCode::PullMaxBytesExceeded
    );
    assert_eq!(limits.validate_io_timeout_ms("timeout_ms", 1).unwrap(), 1);
    assert_eq!(
        limits
            .validate_io_timeout_ms("timeout_ms", limits.io_timeout_max_ms + 1)
            .unwrap_err()
            .code,
        ErrorCode::InvalidRange
    );
    assert!(limits.validate_tx_frame_len(limits.tx_frame_max_bytes).is_ok());
    assert_eq!(
        limits
            .validate_tx_frame_len(limits.tx_frame_max_bytes + 1)
            .unwrap_err()
            .code,
        ErrorCode::TxFrameTooLarge
    );
    assert!(limits.validate_network_host("host", "127.0.0.1").is_ok());
    assert_eq!(
        limits.validate_network_host("host", "192.0.2.1").unwrap_err().code,
        ErrorCode::ScanTargetNotAllowed
    );

    let mut allowlisted = RuntimeLimits::default();
    allowlisted.network_allowed_hosts.push("192.0.2.1".to_owned());
    assert!(allowlisted.validate_network_host("host", "192.0.2.1").is_ok());

    assert_eq!(
        VisaConfig::new("TCPIP0::192.0.2.1::INSTR")
            .validate(&RuntimeLimits::default())
            .unwrap_err()
            .code,
        ErrorCode::ScanTargetNotAllowed
    );
    assert!(VisaConfig::new("TCPIP0::192.0.2.1::INSTR")
        .validate(&allowlisted)
        .is_ok());
    assert!(VisaConfig::new("ASRL3::INSTR").validate(&limits).is_ok());
    assert_eq!(limits.scan_allowed_hosts, vec!["127.0.0.0/8".to_owned(), "::1".to_owned()]);
    assert_eq!(limits.io_timeout_max_ms, 30_000);
    assert!(!limits.allow_non_loopback_network);
}

#[test]
fn network_host_accepts_ipv6_loopback_and_rejects_wildcards() {
    let limits = RuntimeLimits::default();
    assert!(limits.validate_network_host("host", "::1").is_ok());
    assert_eq!(
        limits.validate_network_host("host", "localhost").unwrap_err().code,
        ErrorCode::InvalidAddress
    );
    assert_eq!(
        limits.validate_network_host("host", "  ").unwrap_err().code,
        ErrorCode::InvalidAddress
    );
    assert!(limits.validate_network_host("host", "127.8.9.10").is_ok());
    assert!(limits.validate_network_host("host", "0.0.0.0").is_err());
    assert!(limits.validate_network_host("host", "::").is_err());
    let mut open = RuntimeLimits::default();
    open.allow_non_loopback_network = true;
    assert!(open.validate_network_host("host", "192.0.2.1").is_ok());
    assert!(open.validate_network_host("host", "255.255.255.255").is_err());
}

#[test]
fn unit_udp_config_default_boundary_rejects_non_loopback_remote() {
    let limits = RuntimeLimits::default();
    let config = UdpConfig {
        bind_host: "127.0.0.1".to_owned(),
        bind_port: 9001,
        remote_host: Some("192.0.2.1".to_owned()),
        remote_port: Some(9002),
        timeout_ms: 1_000,
    };

    assert_eq!(
        config.validate_remote(&limits).unwrap_err().code,
        ErrorCode::ScanTargetNotAllowed
    );
}

#[test]
fn unit_tcp_config_default_boundary_rejects_wildcard_hosts() {
    let limits = RuntimeLimits::default();
    assert_eq!(
        TcpConfig::client("0.0.0.0", 9000)
            .validate_remote(&limits)
            .unwrap_err()
            .code,
        ErrorCode::ScanTargetNotAllowed
    );
    assert_eq!(
        TcpConfig::client("::", 9000)
            .validate_remote(&limits)
            .unwrap_err()
            .code,
        ErrorCode::ScanTargetNotAllowed
    );
    assert_eq!(
        TcpConfig::client("", 9000)
            .validate_remote(&limits)
            .unwrap_err()
            .code,
        ErrorCode::InvalidAddress
    );
}
