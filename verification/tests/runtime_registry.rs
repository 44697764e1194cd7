use port_mcp::model::config::{ConfigSnapshot, SerialConfig, TcpConfig, TcpMode, UdpConfig, VisaConfig};
use port_mcp::model::error::{ErrorCategory, ErrorCode};
use port_mcp::model::ids::Timestamp;
use port_mcp::model::limits::RuntimeLimits;
use port_mcp::model::state::{InstanceState, InstanceType};
use port_mcp::runtime::buffers::ClearTarget;
use port_mcp::runtime::locks::{ResourceKey, ResourceLockState};
use port_mcp::runtime::registry::RuntimeRegistry;
use port_mcp::runtime::tasks::{TaskExit, TaskGroup, TaskGroupState};
use port_mcp::service::resource_key_for_summary;

fn at() -> Timestamp {
    Timestamp::from_rfc3339("2026-05-26T00:00:00.000Z").unwrap()
}

#[test]
fn unit_registry_creates_lists_queries_and_releases_without_io() {
    let mut registry = RuntimeRegistry::new_for_tests("20260526");

    let serial = registry.create_instance(InstanceType::Serial).unwrap();
    let tcp = registry.create_instance(InstanceType::Tcp).unwrap();

    assert_eq!(serial.handle_id.as_str(), "h_ser_001");
    assert_eq!(serial.state, InstanceState::Created);
    assert_eq!(tcp.handle_id.as_str(), "h_tcp_001");

    let listed = registry.list_instances();
    assert_eq!(listed.len(), 2);
    assert!(
        listed
            .iter()
            .all(|summary| summary.state == InstanceState::Created)
    );

    let queried = registry.query_instance(&serial.handle_id).unwrap();
    assert_eq!(queried.instance_type, InstanceType::Serial);
    assert!(queried.config.is_none());

    let released = registry.release_instance(&serial.handle_id, false).unwrap();
    assert_eq!(released.state, InstanceState::Released);

    let error = registry.query_instance(&serial.handle_id).unwrap_err();
    assert_eq!(error.category, ErrorCategory::HandleNotFound);
    assert_eq!(error.code, ErrorCode::HandleReleased);
    assert_eq!(registry.list_instances().len(), 1);
}


#[test]
fn unit_registry_enforces_max_instances_and_releases_capacity() {
    let mut limits = RuntimeLimits::default();
    limits.max_instances = 1;
    let mut registry = RuntimeRegistry::new_for_tests_with_limits("20260526", limits);

    let serial = registry.create_instance(InstanceType::Serial).unwrap();
    let error = registry.create_instance(InstanceType::Tcp).unwrap_err();
    assert_eq!(error.category, ErrorCategory::BufferLimitExceeded);
    assert_eq!(error.code, ErrorCode::InvalidRange);

    registry.release_instance(&serial.handle_id, false).unwrap();
    let tcp = registry.create_instance(InstanceType::Tcp).unwrap();
    assert_eq!(tcp.handle_id.as_str(), "h_tcp_001");
}

#[test]
fn unit_session_binding_resolves_default_handles_without_global_fallback() {
    let mut registry = RuntimeRegistry::new_for_tests("20260526");
    let instance = registry.create_instance(InstanceType::Udp).unwrap();

    let unavailable = registry
        .use_instance(None, &instance.handle_id)
        .unwrap_err();
    assert_eq!(unavailable.code, ErrorCode::SessionIdUnavailable);

    let missing = registry
        .resolve_handle(None, Some("session-a"))
        .unwrap_err();
    assert_eq!(missing.category, ErrorCategory::HandleNotFound);
    assert_eq!(missing.code, ErrorCode::SessionBindingMissing);

    let bound = registry
        .use_instance(Some("session-a"), &instance.handle_id)
        .unwrap();
    assert!(bound.previous_handle_id.is_none());

    let rebound = registry
        .use_instance(Some("session-a"), &instance.handle_id)
        .unwrap();
    assert_eq!(
        rebound.previous_handle_id.unwrap().as_str(),
        instance.handle_id.as_str()
    );

    let resolved = registry.resolve_handle(None, Some("session-a")).unwrap();
    assert_eq!(resolved.as_str(), instance.handle_id.as_str());

    let explicit = registry
        .resolve_handle(Some(&instance.handle_id), None)
        .unwrap();
    assert_eq!(explicit.as_str(), instance.handle_id.as_str());
}

#[test]
fn unit_config_state_writes_atomically_and_keeps_old_config_on_error() {
    let mut registry = RuntimeRegistry::new_for_tests("20260526");
    let serial = registry.create_instance(InstanceType::Serial).unwrap();

    let configured = registry
        .configure_serial(&serial.handle_id, SerialConfig::new("COM3"))
        .unwrap();
    assert_eq!(configured.state, InstanceState::Configured);
    assert!(matches!(configured.config, Some(ConfigSnapshot::Serial(_))));

    let wrong_type = registry
        .configure_tcp(&serial.handle_id, TcpConfig::client("127.0.0.1", 9000))
        .unwrap_err();
    assert_eq!(wrong_type.code, ErrorCode::TypeMismatch);

    let after_error = registry.query_instance(&serial.handle_id).unwrap();
    assert_eq!(after_error.state, InstanceState::Configured);
    assert!(matches!(
        after_error.config,
        Some(ConfigSnapshot::Serial(_))
    ));

    let udp = registry.create_instance(InstanceType::Udp).unwrap();
    let udp_summary = registry
        .configure_udp(
            &udp.handle_id,
            UdpConfig {
                bind_host: "127.0.0.1".to_owned(),
                bind_port: 9001,
                remote_host: None,
                remote_port: None,
                timeout_ms: 1_000,
            },
        )
        .unwrap();
    assert!(matches!(udp_summary.config, Some(ConfigSnapshot::Udp(_))));
}

#[test]
fn unit_config_rejects_timeout_and_network_boundary_violations() {
    let mut limits = RuntimeLimits::default();
    limits.io_timeout_max_ms = 2_000;
    let mut registry = RuntimeRegistry::new_for_tests_with_limits("20260526", limits);

    let serial = registry.create_instance(InstanceType::Serial).unwrap();
    let mut serial_config = SerialConfig::new("COM3");
    serial_config.timeout_ms = 2_001;
    assert_eq!(
        registry
            .configure_serial(&serial.handle_id, serial_config)
            .unwrap_err()
            .code,
        ErrorCode::InvalidRange
    );

    let tcp = registry.create_instance(InstanceType::Tcp).unwrap();
    assert_eq!(
        registry
            .configure_tcp(&tcp.handle_id, TcpConfig::client("192.0.2.1", 9000))
            .unwrap_err()
            .code,
        ErrorCode::ScanTargetNotAllowed
    );

    let udp = registry.create_instance(InstanceType::Udp).unwrap();
    assert_eq!(
        registry
            .configure_udp(
                &udp.handle_id,
                UdpConfig {
                    bind_host: "0.0.0.0".to_owned(),
                    bind_port: 9001,
                    remote_host: None,
                    remote_port: None,
                    timeout_ms: 1_000,
                },
            )
            .unwrap_err()
            .code,
        ErrorCode::ScanTargetNotAllowed
    );

    let mut allow_limits = RuntimeLimits::default();
    allow_limits
        .network_allowed_hosts
        .push("192.0.2.1".to_owned());
    let mut allow_registry =
        RuntimeRegistry::new_for_tests_with_limits("20260526", allow_limits);
    let tcp = allow_registry.create_instance(InstanceType::Tcp).unwrap();
    assert!(
        allow_registry
            .configure_tcp(&tcp.handle_id, TcpConfig::client("192.0.2.1", 9000))
            .is_ok()
    );
    let visa = allow_registry.create_instance(InstanceType::Visa).unwrap();
    assert!(
        allow_registry
            .configure_visa(&visa.handle_id, VisaConfig::new("TCPIP0::192.0.2.1::INSTR"))
            .is_ok()
    );

    let visa = registry.create_instance(InstanceType::Visa).unwrap();
    assert_eq!(
        registry
            .configure_visa(&visa.handle_id, VisaConfig::new("TCPIP0::192.0.2.1::INSTR"))
            .unwrap_err()
            .code,
        ErrorCode::ScanTargetNotAllowed
    );
}

#[test]
fn unit_state_matrix_rejects_configure_and_release_in_disallowed_states() {
    let mut registry = RuntimeRegistry::new_for_tests("20260526");
    let tcp = registry.create_instance(InstanceType::Tcp).unwrap();

    registry
        .set_state_for_tests(&tcp.handle_id, InstanceState::Connected)
        .unwrap();

    let config_error = registry
        .configure_tcp(&tcp.handle_id, TcpConfig::client("127.0.0.1", 9000))
        .unwrap_err();
    assert_eq!(config_error.category, ErrorCategory::InvalidState);
    assert_eq!(config_error.code, ErrorCode::StateNotAllowed);

    let release_error = registry
        .release_instance(&tcp.handle_id, false)
        .unwrap_err();
    assert_eq!(release_error.code, ErrorCode::ConnectedReleaseRequiresForce);

    let released = registry.release_instance(&tcp.handle_id, true).unwrap();
    assert_eq!(released.state, InstanceState::Released);
}

#[test]
fn unit_resource_locks_normalize_keys_and_report_held_closing_stale_states() {
    let mut registry = RuntimeRegistry::new_for_tests("20260526");
    let owner = registry.create_instance(InstanceType::Serial).unwrap();
    let contender = registry.create_instance(InstanceType::Serial).unwrap();

    let serial_key = ResourceKey::serial(" com3 ");
    assert_eq!(serial_key.as_str(), "serial:COM3");
    assert_eq!(
        ResourceKey::tcp_listen("127.000.000.001", 9000).as_str(),
        "tcp-listen:127.0.0.1:9000"
    );
    assert_eq!(
        ResourceKey::udp_bind("LOCALHOST", 9001).as_str(),
        "udp-bind:localhost:9001"
    );

    registry
        .acquire_resource_lock(serial_key.duplicate(), &owner.handle_id)
        .unwrap();
    assert_eq!(
        registry.resource_lock_state(&serial_key).unwrap(),
        ResourceLockState::Held
    );

    let busy = registry
        .acquire_resource_lock(serial_key.duplicate(), &contender.handle_id)
        .unwrap_err();
    assert_eq!(busy.category, ErrorCategory::ResourceBusy);
    assert_eq!(busy.code, ErrorCode::SerialPortBusy);

    registry
        .move_resource_lock_to_closing_for_tests(&serial_key, &owner.handle_id)
        .unwrap();
    assert_eq!(
        registry.resource_lock_state(&serial_key).unwrap(),
        ResourceLockState::Closing
    );
    let closing = registry
        .acquire_resource_lock(serial_key.duplicate(), &contender.handle_id)
        .unwrap_err();
    assert_eq!(closing.code, ErrorCode::ResourceClosing);

    registry
        .mark_resource_lock_stale_for_tests(&serial_key)
        .unwrap();
    assert_eq!(
        registry.resource_lock_state(&serial_key).unwrap(),
        ResourceLockState::Stale
    );
    let stale = registry
        .acquire_resource_lock(serial_key, &contender.handle_id)
        .unwrap_err();
    assert_eq!(stale.code, ErrorCode::ResourceLockStale);
}

#[test]
fn unit_release_lifecycle_moves_forced_connected_resources_to_closing_tombstone() {
    let mut registry = RuntimeRegistry::new_for_tests("20260526");
    let instance = registry.create_instance(InstanceType::Tcp).unwrap();
    let key = ResourceKey::tcp_listen("127.0.0.1", 9000);

    registry
        .acquire_resource_lock(key.duplicate(), &instance.handle_id)
        .unwrap();
    registry
        .set_state_for_tests(&instance.handle_id, InstanceState::Connected)
        .unwrap();
    registry
        .use_instance(Some("session-a"), &instance.handle_id)
        .unwrap();

    let released = registry
        .release_instance(&instance.handle_id, true)
        .unwrap();
    assert_eq!(released.state, InstanceState::Released);
    assert_eq!(
        registry.resource_lock_state(&key).unwrap(),
        ResourceLockState::Closing
    );
    assert_eq!(
        registry
            .query_instance(&instance.handle_id)
            .unwrap_err()
            .code,
        ErrorCode::HandleReleased
    );
    assert_eq!(
        registry
            .resolve_handle(None, Some("session-a"))
            .unwrap_err()
            .code,
        ErrorCode::SessionBindingMissing
    );

    registry.complete_resource_close_for_tests(&key).unwrap();
    assert!(registry.resource_lock_state(&key).is_none());
}

#[test]
fn unit_tasks_create_cancel_and_report_mock_task_state() {
    let mut group = TaskGroup::new_for_tests();
    assert_eq!(group.state(), TaskGroupState::Running);

    group.cancel();
    assert_eq!(group.state(), TaskGroupState::Cancelling);

    group.finish(TaskExit::Clean);
    assert_eq!(group.state(), TaskGroupState::Finished);
    assert_eq!(group.exit(), Some(TaskExit::Clean));
}

#[test]
fn integration_mock_lifecycle_connects_disconnects_and_releases_without_real_io() {
    let mut registry = RuntimeRegistry::new_for_tests("20260526");
    let instance = registry.create_instance(InstanceType::Tcp).unwrap();
    registry
        .configure_tcp(&instance.handle_id, TcpConfig::client("127.0.0.1", 9000))
        .unwrap();

    let connected = registry.connect_mock(&instance.handle_id).unwrap();
    assert_eq!(connected.state, InstanceState::Connected);

    let disconnected = registry.disconnect_mock(&instance.handle_id).unwrap();
    assert_eq!(disconnected.state, InstanceState::Disconnected);

    let released = registry
        .release_instance(&instance.handle_id, false)
        .unwrap();
    assert_eq!(released.state, InstanceState::Released);
}

#[test]
fn integration_mock_task_error_records_last_error_and_enters_error_state() {
    let mut registry = RuntimeRegistry::new_for_tests("20260526");
    let instance = registry.create_instance(InstanceType::Tcp).unwrap();
    registry
        .configure_tcp(&instance.handle_id, TcpConfig::client("127.0.0.1", 9000))
        .unwrap();
    registry.connect_mock(&instance.handle_id).unwrap();

    registry
        .record_mock_task_failure(
            &instance.handle_id,
            ErrorCode::ReadIoFailed,
            "mock read failed",
            at(),
        )
        .unwrap();

    let errored = registry.query_instance(&instance.handle_id).unwrap();
    assert_eq!(errored.state, InstanceState::Error);
    let last_error = errored.last_error.unwrap();
    assert_eq!(last_error.code, ErrorCode::ReadIoFailed);
    assert_eq!(last_error.tool, "mock_task");
}

#[test]
fn integration_force_release_keeps_closing_lock_until_mock_close_completes() {
    let mut registry = RuntimeRegistry::new_for_tests("20260526");
    let instance = registry.create_instance(InstanceType::Tcp).unwrap();
    registry
        .configure_tcp(
            &instance.handle_id,
            TcpConfig {
                mode: TcpMode::Listen,
                host: "127.0.0.1".to_owned(),
                port: 9000,
                timeout_ms: 1_000,
            },
        )
        .unwrap();
    registry.connect_mock(&instance.handle_id).unwrap();

    let key = ResourceKey::tcp_listen("127.0.0.1", 9000);
    registry
        .release_instance(&instance.handle_id, true)
        .unwrap();
    assert_eq!(
        registry.resource_lock_state(&key),
        Some(ResourceLockState::Closing)
    );

    registry.complete_mock_background_close(&key).unwrap();
    assert_eq!(registry.resource_lock_state(&key), None);
}

#[test]
fn unit_queues_accept_fifo_reject_full_and_restore_budget_on_flush() {
    let mut limits = RuntimeLimits::default();
    limits.tx_queue_max_items = 2;
    limits.tx_frame_max_bytes = 4;
    limits.max_total_queued_bytes = 8;
    let mut registry = RuntimeRegistry::new_for_tests_with_limits("20260526", limits);
    let instance = registry.create_instance(InstanceType::Tcp).unwrap();
    registry
        .configure_tcp(&instance.handle_id, TcpConfig::client("127.0.0.1", 9000))
        .unwrap();
    registry.connect_mock(&instance.handle_id).unwrap();

    assert_eq!(
        registry
            .port_send_mock(&instance.handle_id, b"aa")
            .unwrap()
            .queued,
        true
    );
    assert_eq!(
        registry
            .port_send_mock(&instance.handle_id, b"bb")
            .unwrap()
            .sent_bytes,
        2
    );
    assert_eq!(registry.queued_bytes_for_tests(), 4);

    let full = registry
        .port_send_mock(&instance.handle_id, b"cc")
        .unwrap_err();
    assert_eq!(full.code, ErrorCode::TxQueueFull);
    let too_large = registry
        .port_send_mock(&instance.handle_id, b"hello")
        .unwrap_err();
    assert_eq!(too_large.code, ErrorCode::TxFrameTooLarge);

    let flushed = registry.flush_mock_tx(&instance.handle_id).unwrap();
    assert_eq!(flushed.frames, vec![b"aa".to_vec(), b"bb".to_vec()]);
    assert_eq!(registry.queued_bytes_for_tests(), 0);
    let summary = registry.query_instance(&instance.handle_id).unwrap();
    assert_eq!(summary.stats.tx_bytes, 4);
    assert_eq!(summary.stats.tx_queue_items, 0);
}

#[test]
fn unit_buffers_drop_old_pull_truncate_and_clear_without_touching_subscribers() {
    let mut limits = RuntimeLimits::default();
    limits.rx_buffer_max_bytes = 5;
    limits.pull_max_bytes = 4;
    limits.max_total_buffer_bytes = 5;
    let mut registry = RuntimeRegistry::new_for_tests_with_limits("20260526", limits);
    let instance = registry.create_instance(InstanceType::Tcp).unwrap();
    registry
        .configure_tcp(&instance.handle_id, TcpConfig::client("127.0.0.1", 9000))
        .unwrap();
    registry.connect_mock(&instance.handle_id).unwrap();
    registry
        .subscribe_mock(&instance.handle_id, "session-a", 16)
        .unwrap();

    registry
        .receive_mock_chunk(&instance.handle_id, b"abcdef", 1)
        .unwrap();
    let summary = registry.query_instance(&instance.handle_id).unwrap();
    assert_eq!(summary.stats.rx_buffer_bytes, 5);
    assert_eq!(summary.stats.rx_dropped_bytes, 1);
    assert_eq!(registry.buffer_bytes_for_tests(), 5);

    let pulled = registry
        .port_pull_mock(&instance.handle_id, Some(3))
        .unwrap();
    assert_eq!(pulled.bytes, b"bcd".to_vec());
    assert!(pulled.truncated);
    assert_eq!(pulled.remaining_rx_buffer_bytes, 2);
    assert_eq!(registry.buffer_bytes_for_tests(), 2);

    let cleared = registry
        .port_clear_mock(&instance.handle_id, ClearTarget::Rx)
        .unwrap();
    assert_eq!(cleared.dropped_rx_bytes, 2);
    assert_eq!(registry.buffer_bytes_for_tests(), 0);
    assert_eq!(
        registry
            .pull_subscription_mock(&instance.handle_id, "session-a")
            .unwrap()
            .len(),
        1
    );
}

#[test]
fn unit_subscription_isolates_slow_subscribers_and_unsubscribe_is_idempotent() {
    let mut limits = RuntimeLimits::default();
    limits.subscriber_queue_max_items = 1;
    limits.subscriber_payload_max_bytes = 4;
    limits.max_subscribers_per_instance = 2;
    let mut registry = RuntimeRegistry::new_for_tests_with_limits("20260526", limits);
    let instance = registry.create_instance(InstanceType::Tcp).unwrap();
    registry
        .configure_tcp(&instance.handle_id, TcpConfig::client("127.0.0.1", 9000))
        .unwrap();
    registry.connect_mock(&instance.handle_id).unwrap();

    registry
        .subscribe_mock(&instance.handle_id, "session-a", 3)
        .unwrap();
    registry
        .subscribe_mock(&instance.handle_id, "session-b", 4)
        .unwrap();

    let too_many = registry
        .subscribe_mock(&instance.handle_id, "session-c", 4)
        .unwrap_err();
    assert_eq!(too_many.code, ErrorCode::SubscriberLimitExceeded);

    registry
        .receive_mock_chunk(&instance.handle_id, b"first", 1)
        .unwrap();
    registry
        .receive_mock_chunk(&instance.handle_id, b"second", 2)
        .unwrap();

    let a = registry
        .pull_subscription_mock(&instance.handle_id, "session-a")
        .unwrap();
    assert_eq!(a.len(), 1);
    assert_eq!(a[0].payload, b"sec".to_vec());
    assert!(a[0].truncated);
    assert_eq!(a[0].dropped_notifications, 1);

    let b = registry
        .pull_subscription_mock(&instance.handle_id, "session-b")
        .unwrap();
    assert_eq!(b.len(), 1);
    assert_eq!(b[0].payload, b"seco".to_vec());

    assert!(
        registry
            .unsubscribe_mock(&instance.handle_id, "session-a")
            .unwrap()
            .was_subscribed
    );
    assert!(
        !registry
            .unsubscribe_mock(&instance.handle_id, "session-a")
            .unwrap()
            .was_subscribed
    );
}

#[test]
fn unit_runtime_budget_rejects_tx_and_rx_restores_after_clear_and_release() {
    let mut limits = RuntimeLimits::default();
    limits.tx_queue_max_items = 4;
    limits.rx_buffer_max_bytes = 10;
    limits.max_total_queued_bytes = 3;
    limits.max_total_buffer_bytes = 4;
    let mut registry = RuntimeRegistry::new_for_tests_with_limits("20260526", limits);
    let instance = registry.create_instance(InstanceType::Tcp).unwrap();
    registry
        .configure_tcp(&instance.handle_id, TcpConfig::client("127.0.0.1", 9000))
        .unwrap();
    registry.connect_mock(&instance.handle_id).unwrap();

    registry
        .port_send_mock(&instance.handle_id, b"abc")
        .unwrap();
    let budget = registry
        .port_send_mock(&instance.handle_id, b"d")
        .unwrap_err();
    assert_eq!(budget.category, ErrorCategory::BufferLimitExceeded);

    registry
        .receive_mock_chunk(&instance.handle_id, b"abcdef", 1)
        .unwrap();
    assert_eq!(registry.buffer_bytes_for_tests(), 4);
    assert_eq!(
        registry
            .query_instance(&instance.handle_id)
            .unwrap()
            .stats
            .rx_dropped_bytes,
        2
    );

    registry
        .port_clear_mock(&instance.handle_id, ClearTarget::All)
        .unwrap();
    assert_eq!(registry.buffer_bytes_for_tests(), 0);
    assert_eq!(registry.queued_bytes_for_tests(), 0);

    registry
        .release_instance(&instance.handle_id, true)
        .unwrap();
    assert_eq!(registry.buffer_bytes_for_tests(), 0);
    assert_eq!(registry.queued_bytes_for_tests(), 0);
}

#[test]
fn unit_notification_rate_coalesces_without_affecting_rx_buffer() {
    let mut limits = RuntimeLimits::default();
    limits.subscriber_queue_max_items = 4;
    limits.subscriber_notifications_per_sec = 1;
    limits.instance_notifications_per_sec = 1;
    limits.global_notifications_per_sec = 1;
    limits.notification_burst = 1;
    let mut registry = RuntimeRegistry::new_for_tests_with_limits("20260526", limits);
    let instance = registry.create_instance(InstanceType::Tcp).unwrap();
    registry
        .configure_tcp(&instance.handle_id, TcpConfig::client("127.0.0.1", 9000))
        .unwrap();
    registry.connect_mock(&instance.handle_id).unwrap();
    registry
        .subscribe_mock(&instance.handle_id, "session-a", 16)
        .unwrap();

    registry
        .receive_mock_chunk(&instance.handle_id, b"one", 1)
        .unwrap();
    registry
        .receive_mock_chunk(&instance.handle_id, b"two", 1)
        .unwrap();

    let notifications = registry
        .pull_subscription_mock(&instance.handle_id, "session-a")
        .unwrap();
    assert_eq!(notifications.len(), 1);
    assert_eq!(notifications[0].payload, b"two".to_vec());
    assert!(notifications[0].coalesced);
    assert_eq!(notifications[0].dropped_notifications, 1);

    let pulled = registry
        .port_pull_mock(&instance.handle_id, Some(6))
        .unwrap();
    assert_eq!(pulled.bytes, b"onetwo".to_vec());
}

#[test]
fn integration_mock_full_covers_send_pull_clear_subscribe_error_and_release() {
    let mut limits = RuntimeLimits::default();
    limits.tx_queue_max_items = 4;
    limits.rx_buffer_max_bytes = 16;
    let mut registry = RuntimeRegistry::new_for_tests_with_limits("20260526", limits);
    let instance = registry.create_instance(InstanceType::Tcp).unwrap();
    registry
        .configure_tcp(&instance.handle_id, TcpConfig::client("127.0.0.1", 9000))
        .unwrap();
    registry.connect_mock(&instance.handle_id).unwrap();
    registry
        .subscribe_mock(&instance.handle_id, "session-a", 16)
        .unwrap();

    registry
        .port_send_mock(&instance.handle_id, b"ping")
        .unwrap();
    assert_eq!(
        registry.flush_mock_tx(&instance.handle_id).unwrap().frames,
        vec![b"ping".to_vec()]
    );
    registry
        .receive_mock_chunk(&instance.handle_id, b"pong", 1)
        .unwrap();
    assert_eq!(
        registry
            .port_pull_mock(&instance.handle_id, None)
            .unwrap()
            .bytes,
        b"pong".to_vec()
    );
    assert_eq!(
        registry
            .pull_subscription_mock(&instance.handle_id, "session-a")
            .unwrap()[0]
            .payload,
        b"pong".to_vec()
    );
    registry
        .port_clear_mock(&instance.handle_id, ClearTarget::All)
        .unwrap();

    registry
        .record_mock_task_failure(
            &instance.handle_id,
            ErrorCode::TaskFailed,
            "mock task failed",
            at(),
        )
        .unwrap();
    assert_eq!(
        registry.query_instance(&instance.handle_id).unwrap().state,
        InstanceState::Error
    );

    let released = registry
        .release_instance(&instance.handle_id, true)
        .unwrap();
    assert_eq!(released.state, InstanceState::Released);
    assert_eq!(registry.buffer_bytes_for_tests(), 0);
    assert_eq!(registry.queued_bytes_for_tests(), 0);
}


#[test]
fn received_chunks_come_back_from_one_pull_in_order() {
    let mut registry = RuntimeRegistry::new_for_tests("20260526");
    let instance = registry.create_instance(InstanceType::Udp).unwrap();
    registry
        .configure_udp(
            &instance.handle_id,
            UdpConfig {
                bind_host: "127.0.0.1".to_owned(),
                bind_port: 9100,
                remote_host: None,
                remote_port: None,
                timeout_ms: 1_000,
            },
        )
        .unwrap();
    registry.connect_mock(&instance.handle_id).unwrap();
    registry.receive_mock_chunk(&instance.handle_id, b"ab", 1).unwrap();
    registry.receive_mock_chunk(&instance.handle_id, b"cd", 2).unwrap();
    let pulled = registry.port_pull_mock(&instance.handle_id, Some(64)).unwrap();
    assert_eq!(pulled.bytes, b"abcd".to_vec());
    assert_eq!(pulled.remaining_rx_buffer_bytes, 0);
    assert!(!pulled.truncated);
    assert_eq!(registry.buffer_bytes_for_tests(), 0);
}

#[test]
fn unit_app_instances_delegates_to_registry_and_maps_errors() {
    let mut registry = RuntimeRegistry::new_for_tests("20260526");

    let created = registry.create_instance(InstanceType::Tcp).unwrap();
    assert_eq!(registry.list_instances().len(), 1);
    assert!(registry
        .use_instance(Some("session-a"), &created.handle_id)
        .unwrap()
        .previous_handle_id
        .is_none());
    registry
        .configure_tcp(&created.handle_id, TcpConfig::client("127.0.0.1", 9000))
        .unwrap();

    let queried = registry.query_instance(&created.handle_id).unwrap();
    assert_eq!(queried.state, InstanceState::Configured);

    let missing_session = registry.resolve_handle(None, None).unwrap_err();
    assert_eq!(missing_session.code, ErrorCode::SessionIdUnavailable);

    let by_session = registry.resolve_handle(None, Some("session-a")).unwrap();
    assert_eq!(by_session.as_str(), created.handle_id.as_str());

    let serial = registry.create_instance(InstanceType::Serial).unwrap();
    registry
        .configure_serial(&serial.handle_id, SerialConfig::new("COM7"))
        .unwrap();

    registry.release_instance(&created.handle_id, false).unwrap();
    let released = registry.query_instance(&created.handle_id).unwrap_err();
    assert_eq!(released.code, ErrorCode::HandleReleased);
}

#[test]
fn forced_release_close_key_follows_the_configured_resource() {
    let mut registry = RuntimeRegistry::new_for_tests("20260526");
    let listener = registry.create_instance(InstanceType::Tcp).unwrap();
    let mut listen = TcpConfig::client("127.0.0.1", 9300);
    listen.mode = TcpMode::Listen;
    let summary = registry.configure_tcp(&listener.handle_id, listen).unwrap();
    assert_eq!(
        resource_key_for_summary(&summary).unwrap().as_str(),
        ResourceKey::tcp_listen("127.0.0.1", 9300).as_str()
    );

    let client = registry.create_instance(InstanceType::Tcp).unwrap();
    let summary = registry
        .configure_tcp(&client.handle_id, TcpConfig::client("127.0.0.1", 9301))
        .unwrap();
    assert!(resource_key_for_summary(&summary).is_none());

    let serial = registry.create_instance(InstanceType::Serial).unwrap();
    let summary = registry
        .configure_serial(&serial.handle_id, SerialConfig::new("COM3"))
        .unwrap();
    assert!(resource_key_for_summary(&summary).is_none());
    assert!(resource_key_for_summary(&serial).is_none());
}
