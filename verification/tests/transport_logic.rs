use port_mcp::model::config::SerialConfig;
use port_mcp::model::error::{ErrorCategory, ErrorCode};
use port_mcp::transport::common::{
    ensure_loopback_host, is_loopback_single_host, map_read_error, map_tcp_bind_error,
    map_tcp_connect_error, map_udp_bind_error, map_write_error, scan_result, validate_scan_request, IoKind,
    TransportError,
};
use port_mcp::transport::mock::MockTransport;
use port_mcp::transport::serial::{serial_port_display, usb_port_type, SerialPortSettings};
use port_mcp::transport::tcp::{
    broadcast_result, listen_write_target, map_listen_write_error, peer_write_result, TcpInboundFrame, TcpListenInbox, TcpListenWriteMode,
    TCP_LISTEN_INBOUND_MAX_FRAMES,
};
use port_mcp::transport::visa::{map_io_read_error, map_visa_error, parse_resource_class};

#[test]
fn unit_transport_common_maps_mock_errors_without_deciding_response_shape() {
    let timeout = TransportError::read_timeout("mock read timeout");
    assert_eq!(timeout.code, ErrorCode::ReadTimeout);
    assert!(!timeout.fatal);

    let closed = TransportError::transport_closed("mock closed");
    assert_eq!(closed.code, ErrorCode::TransportClosed);
    assert!(closed.fatal);
}

#[test]
fn integration_mock_transport_injects_reads_observes_writes_and_failures() {
    let mut transport = MockTransport::new();
    transport.inject_read(b"pong");

    let read = transport.read_chunk(8).unwrap();
    assert_eq!(read, b"pong".to_vec());

    let written = transport.write_all(b"ping").unwrap();
    assert_eq!(written, 4);
    assert_eq!(transport.writes(), &[b"ping".to_vec()]);

    transport.fail_next_write(ErrorCode::WriteIoFailed);
    let failed = transport.write_all(b"boom").unwrap_err();
    assert_eq!(failed.code, ErrorCode::WriteIoFailed);

    transport.close().unwrap();
    let closed = transport.read_chunk(1).unwrap_err();
    assert_eq!(closed.code, ErrorCode::TransportClosed);
}

#[test]
fn mock_transport_hands_out_injected_chunks_in_order_and_times_out_when_empty() {
    let mut transport = MockTransport::new();
    transport.inject_read(b"abcdef");
    transport.inject_read(b"g");
    assert_eq!(transport.read_chunk(4).unwrap(), b"abcdef".to_vec());
    assert_eq!(transport.read_chunk(4).unwrap(), b"g".to_vec());
    assert_eq!(transport.read_chunk(4).unwrap_err().code, ErrorCode::ReadTimeout);
}

#[test]
fn unit_visa_io_read_timeout_maps_to_read_timeout() {
    let error = map_io_read_error(true, "operation timed out");

    assert_eq!(error.category, ErrorCategory::ReadTimeout);
    assert_eq!(error.code, ErrorCode::ReadTimeout);
    assert!(error.retryable);
}

#[test]
fn visa_errors_are_classified_from_the_raw_message() {
    let busy = map_visa_error(
        ErrorCode::VisaOpenFailed,
        ErrorCategory::WriteFailed,
        "VISA open failed.",
        "Retry.",
        "Resource LOCKED by another session",
    );
    assert_eq!(busy.code, ErrorCode::VisaResourceBusy);
    assert_eq!(busy.category, ErrorCategory::ResourceBusy);

    let timeout = map_visa_error(
        ErrorCode::VisaOpenFailed,
        ErrorCategory::WriteFailed,
        "VISA open failed.",
        "Retry.",
        "VI_ERROR_TMO",
    );
    assert_eq!(timeout.code, ErrorCode::VisaOpenTimeout);
    assert_eq!(timeout.category, ErrorCategory::ConnectTimeout);

    let missing = map_visa_error(
        ErrorCode::VisaEnumFailed,
        ErrorCategory::WriteFailed,
        "VISA enumeration failed.",
        "Retry.",
        "resource not found",
    );
    assert_eq!(missing.code, ErrorCode::VisaResourceNotFound);
    assert_eq!(missing.category, ErrorCategory::InvalidArgument);

    let other = map_visa_error(
        ErrorCode::VisaWriteFailed,
        ErrorCategory::WriteFailed,
        "VISA write failed.",
        "Retry.",
        "timeout",
    );
    assert_eq!(other.code, ErrorCode::VisaWriteFailed);
    assert!(!other.retryable);

    let read = map_io_read_error(false, "device gone");
    assert_eq!(read.code, ErrorCode::VisaReadFailed);
    assert!(!read.retryable);
}

#[test]
fn visa_resource_class_is_the_lowercase_interface_prefix() {
    assert_eq!(parse_resource_class("TCPIP0::192.0.2.1::INSTR").as_deref(), Some("tcpip"));
    assert_eq!(parse_resource_class(" ASRL3::INSTR").as_deref(), Some("asrl"));
    assert_eq!(parse_resource_class("123::INSTR"), None);
}

#[test]
fn io_failures_map_to_transport_errors() {
    assert_eq!(map_tcp_connect_error(IoKind::TimedOut).code, ErrorCode::ConnectTimeout);
    assert_eq!(map_tcp_bind_error(IoKind::AddrInUse).code, ErrorCode::TcpListenAddrBusy);
    assert_eq!(map_udp_bind_error(IoKind::AddrInUse).code, ErrorCode::UdpBindAddrBusy);
    assert_eq!(map_read_error(IoKind::TimedOut).code, ErrorCode::ReadTimeout);
    assert_eq!(map_read_error(IoKind::ConnectionReset).code, ErrorCode::ReadIoFailed);
    assert_eq!(map_write_error(IoKind::BrokenPipe).code, ErrorCode::TransportClosed);
}

#[test]
fn loopback_checks_accept_only_single_loopback_hosts() {
    assert!(is_loopback_single_host("127.0.0.1"));
    assert!(is_loopback_single_host("::1"));
    assert!(!is_loopback_single_host("localhost"));
    assert!(!is_loopback_single_host("0.0.0.0"));
    assert!(!is_loopback_single_host("192.0.2.1"));
    assert!(ensure_loopback_host("127.0.0.1").is_ok());
    assert_eq!(
        ensure_loopback_host("192.0.2.1").unwrap_err().code,
        ErrorCode::InvalidAddress
    );
}

#[test]
fn scan_request_validation_rejects_unsafe_targets_and_oversized_ranges() {
    assert_eq!(
        validate_scan_request("192.0.2.1", 1, 2, 4).unwrap_err().code,
        ErrorCode::ScanTargetNotAllowed
    );
    assert_eq!(
        validate_scan_request("127.0.0.1", 10, 9, 4).unwrap_err().code,
        ErrorCode::InvalidRange
    );
    assert_eq!(
        validate_scan_request("127.0.0.1", 1, 1000, 4).unwrap_err().code,
        ErrorCode::ScanRangeTooLarge
    );
    assert_eq!(
        validate_scan_request("127.0.0.1", 1, 2, 0).unwrap_err().code,
        ErrorCode::ScanRangeTooLarge
    );
    assert_eq!(validate_scan_request("127.0.0.1", 9000, 9255, 64).unwrap(), 256);
}

#[test]
fn serial_settings_and_port_descriptions() {
    let settings = SerialPortSettings::try_from_config(&SerialConfig::new("COM3")).unwrap();
    assert_eq!(settings.baudrate, 115_200);
    assert_eq!(usb_port_type(0x2341, 0x43), "usb vid=2341 pid=0043");
    assert_eq!(serial_port_display("COM3", "pci"), "COM3 (pci)");
}

fn frame(peer: &str, bytes: &[u8]) -> TcpInboundFrame {
    TcpInboundFrame {
        peer_id: peer.to_owned(),
        remote_addr: format!("127.0.0.1:{}", 4000 + peer.len()),
        bytes: bytes.to_vec(),
    }
}

#[test]
fn tcp_inbox_reads_per_peer_and_keeps_the_rest_of_long_frames() {
    let mut inbox = TcpListenInbox::new();
    inbox.push_frame(frame("a", b"hello"));
    inbox.push_frame(frame("bb", b"xy"));
    inbox.push_frame(frame("a", b"z"));

    let first_b = inbox.read_frame(Some("bb"), 16).unwrap();
    assert_eq!(first_b.peer_id, "bb");
    assert_eq!(first_b.bytes, b"xy".to_vec());
    assert_eq!(first_b.remaining_frames, 2);

    let part = inbox.read_frame(None, 3).unwrap();
    assert_eq!(part.bytes, b"hel".to_vec());
    assert_eq!(part.remaining_frames, 2);
    let rest = inbox.read_frame(Some("a"), 16).unwrap();
    assert_eq!(rest.bytes, b"lo".to_vec());

    inbox.drop_peer("a");
    assert!(inbox.read_frame(None, 16).is_none());
    assert!(inbox.read_frame(Some("missing"), 16).is_none());
}

#[test]
fn tcp_inbox_drops_the_oldest_frame_when_full() {
    let mut inbox = TcpListenInbox::new();
    for i in 0..TCP_LISTEN_INBOUND_MAX_FRAMES + 1 {
        inbox.push_frame(frame("p", &[(i % 256) as u8]));
    }
    let oldest = inbox.read_frame(None, 4).unwrap();
    assert_eq!(oldest.bytes, vec![1u8]);
    assert_eq!(oldest.remaining_frames, TCP_LISTEN_INBOUND_MAX_FRAMES - 1);
    inbox.clear();
    assert!(inbox.read_frame(None, 4).is_none());
}

#[test]
fn tcp_write_results_count_peers() {
    let ok = broadcast_result(4, vec!["a".to_owned(), "b".to_owned()], 1).unwrap();
    assert_eq!(ok.sent_bytes, 8);
    assert_eq!(ok.mode, TcpListenWriteMode::Broadcast);
    assert_eq!(ok.failed_peer_count, 1);
    let failed = broadcast_result(4, Vec::new(), 2).unwrap_err();
    assert_eq!(failed.code, ErrorCode::TransportClosed);
    let peer = peer_write_result(3, "peer-1");
    assert_eq!(peer.sent_bytes, 3);
    assert_eq!(peer.peer_id.as_deref(), Some("peer-1"));
    assert_eq!(peer.successful_peer_ids, vec!["peer-1".to_owned()]);
}

#[test]
fn listener_writes_find_their_peer_or_fail_closed() {
    let peers = vec!["p1".to_owned(), "p2".to_owned()];
    assert_eq!(listen_write_target(Some("p2"), &peers).unwrap(), Some(1));
    assert_eq!(listen_write_target(None, &peers).unwrap(), None);
    let missing = listen_write_target(Some("p9"), &peers).unwrap_err();
    assert_eq!(missing.code, ErrorCode::TransportClosed);
    assert_eq!(missing.message, "tcp peer not found");
    let none = listen_write_target(None, &Vec::new()).unwrap_err();
    assert_eq!(none.message, "tcp listen has no connected peers");
    let late = map_listen_write_error(IoKind::TimedOut);
    assert_eq!(late.code, ErrorCode::WriteIoFailed);
    assert_eq!(late.message, "tcp write timed out");
    assert_eq!(map_listen_write_error(IoKind::BrokenPipe).code, ErrorCode::TransportClosed);
}

#[test]
fn scan_reports_reachable_ports_in_order() {
    let result = scan_result(8000, &vec![false, true, false, true, true]);
    assert_eq!(result.open_ports, vec![8001, 8003, 8004]);
    assert!(scan_result(65535, &vec![false]).open_ports.is_empty());
    assert_eq!(scan_result(65535, &vec![true]).open_ports, vec![65535]);
}
