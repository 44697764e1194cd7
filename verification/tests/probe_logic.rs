use std::cell::Cell;

use port_mcp::model::config::{Parity, PayloadEncoding, SerialConfig, VisaConfig};
use port_mcp::model::error::{DomainError, ErrorCategory, ErrorCode};
use port_mcp::model::limits::RuntimeLimits;
use port_mcp::probe::matcher::{matches_response, validate_matcher, Matcher};
use port_mcp::probe::params::{
    default_regex_pattern_max_bytes, DeviceProbeParams, FailureOutputParam, ProbeAttemptStatus,
    ProbeDataBits, ProbeEncoding, ProbeFlowControl, ProbeLimitsParams, ProbeMatcherParams,
    ProbeParity, ProbePayloadParams, ProbeStopBits, ProbeTarget, SerialProbeParams, VisaProbeParams,
};
use port_mcp::probe::plans::{build_serial_plans, build_visa_plans, visa_plans_for, ResourcePlan};
use port_mcp::probe::report::{
    bump_count, error_failure, failure_sample, probe_concurrency, success, transport_error_to_domain,
    CandidateAttempt, DeviceProbeResponse, ProbeConfig, ResourceProbeResult,
};
use port_mcp::probe::request::{validate_limits, validate_request, ProbeRequest};
use port_mcp::probe::run::{
    gather_plans, probe_visa_resources, serial_read_absorb, serial_read_room,
    read_visa_response, run_serial_resource_with_attempt, run_visa_resource, ResponseChunks, ScriptedChunks,
};
use port_mcp::transport::common::TransportError;

fn serial_params() -> SerialProbeParams {
    SerialProbeParams {
        ports: Some(vec!["COM3".to_owned()]),
        baudrates: vec![9_600],
        data_bits: ProbeDataBits::Eight,
        stop_bits: ProbeStopBits::One,
        parity: ProbeParity::Disabled,
        flow_control: ProbeFlowControl::Disabled,
        timeout_ms: 1_000,
        encoding: ProbeEncoding::Text,
    }
}

fn payload(data: &str) -> ProbePayloadParams {
    ProbePayloadParams {
        data: data.to_owned(),
        encoding: ProbeEncoding::Text,
        append_line_break: false,
    }
}

fn request_with(matcher: Matcher, limits: ProbeLimitsParams, failure_output: FailureOutputParam) -> ProbeRequest {
    ProbeRequest {
        targets: vec![ProbeTarget::Serial],
        serial: Some(serial_params()),
        visa: None,
        payload: b"ping".to_vec(),
        matcher,
        limits,
        failure_output,
    }
}

#[test]
fn unit_probe_matcher_covers_text_hex_and_any_response() {
    assert!(matches_response(&Matcher::Contains("OK".to_owned()), b":RESIOK\n"));
    assert!(!matches_response(&Matcher::Contains("ok".to_owned()), b":RESIOK\n"));
    assert!(matches_response(&Matcher::HexContains(vec![0x52, 0x45]), b":RESIOK\n"));
    assert!(matches_response(&Matcher::Regex(r"RESI(OK|READY)".to_owned()), b":RESIOK\n"));
    assert!(matches_response(
        &Matcher::HexRegex(r"^010302[0-9A-F]+$".to_owned()),
        &[0x01, 0x03, 0x02, 0x01, 0x0B, 0xE5, 0xEC]
    ));
    assert!(matches_response(&Matcher::AnyResponse, b"x"));
    assert!(!matches_response(&Matcher::AnyResponse, b""));
}

#[test]
fn unit_probe_validation_accepts_regex_and_rejects_invalid_regex() {
    let matcher = validate_matcher(
        ProbeMatcherParams::Regex { value: r"RESI(OK|READY)".to_owned() },
        &RuntimeLimits::default(),
        default_regex_pattern_max_bytes(),
    )
    .unwrap();
    assert_eq!(matcher.name(), "regex");

    let matcher = validate_matcher(
        ProbeMatcherParams::HexRegex { value: r"^010302[0-9A-F]+$".to_owned() },
        &RuntimeLimits::default(),
        default_regex_pattern_max_bytes(),
    )
    .unwrap();
    assert_eq!(matcher.name(), "hex_regex");

    let invalid = validate_matcher(
        ProbeMatcherParams::Regex { value: "(".to_owned() },
        &RuntimeLimits::default(),
        default_regex_pattern_max_bytes(),
    )
    .unwrap_err();
    assert_eq!(invalid.code, ErrorCode::ProtocolFrameInvalid);
}

#[test]
fn unit_probe_validation_rejects_empty_targets_payload_and_matcher() {
    let invalid = DeviceProbeParams {
        targets: Vec::new(),
        serial: None,
        visa: None,
        payload: payload("ping"),
        matcher: ProbeMatcherParams::AnyResponse,
        limits: ProbeLimitsParams::default(),
        failure_output: FailureOutputParam::Counts,
        include_failure_samples: false,
    };
    assert_eq!(
        validate_request(invalid, &RuntimeLimits::default()).unwrap_err().code,
        ErrorCode::InvalidRange
    );

    let invalid = DeviceProbeParams {
        targets: vec![ProbeTarget::Serial],
        serial: Some(serial_params()),
        visa: None,
        payload: payload(""),
        matcher: ProbeMatcherParams::Contains { value: String::new() },
        limits: ProbeLimitsParams::default(),
        failure_output: FailureOutputParam::Counts,
        include_failure_samples: false,
    };
    assert_eq!(
        validate_request(invalid, &RuntimeLimits::default()).unwrap_err().code,
        ErrorCode::InvalidRange
    );
}

#[test]
fn probe_validation_accepts_a_complete_request_and_turns_on_samples() {
    let params = DeviceProbeParams {
        targets: vec![ProbeTarget::Serial],
        serial: Some(serial_params()),
        visa: None,
        payload: ProbePayloadParams {
            data: "50494e47".to_owned(),
            encoding: ProbeEncoding::Hex,
            append_line_break: true,
        },
        matcher: ProbeMatcherParams::HexContains { value: "504f4e47".to_owned() },
        limits: ProbeLimitsParams::default(),
        failure_output: FailureOutputParam::Counts,
        include_failure_samples: true,
    };
    let request = validate_request(params, &RuntimeLimits::default()).unwrap();
    assert_eq!(request.payload, b"PING\n".to_vec());
    assert_eq!(request.failure_output, FailureOutputParam::Samples);
    assert!(matches!(request.matcher, Matcher::HexContains(ref n) if n == b"PONG"));
}

#[test]
fn probe_validation_requires_serial_settings_and_checks_limits() {
    let params = DeviceProbeParams {
        targets: vec![ProbeTarget::Serial],
        serial: None,
        visa: None,
        payload: payload("ping"),
        matcher: ProbeMatcherParams::AnyResponse,
        limits: ProbeLimitsParams::default(),
        failure_output: FailureOutputParam::Counts,
        include_failure_samples: false,
    };
    assert_eq!(
        validate_request(params, &RuntimeLimits::default()).unwrap_err().code,
        ErrorCode::MissingRequiredField
    );

    let mut limits = ProbeLimitsParams::default();
    limits.max_concurrency = 33;
    let error = validate_limits(&limits, &RuntimeLimits::default()).unwrap_err();
    assert_eq!(error.code, ErrorCode::InvalidRange);
    assert_eq!(error.message, "limits.max_concurrency is outside the allowed range.");
    assert_eq!(error.recovery_hint, "Use a value between 1 and 32.");

    let mut limits = ProbeLimitsParams::default();
    limits.payload_max_bytes = 4;
    let params = DeviceProbeParams {
        targets: vec![ProbeTarget::Visa],
        serial: None,
        visa: None,
        payload: payload("hello"),
        matcher: ProbeMatcherParams::AnyResponse,
        limits,
        failure_output: FailureOutputParam::Counts,
        include_failure_samples: false,
    };
    let error = validate_request(params, &RuntimeLimits::default()).unwrap_err();
    assert_eq!(error.category, ErrorCategory::BufferLimitExceeded);
    assert_eq!(error.code, ErrorCode::TxFrameTooLarge);
}

#[test]
fn unit_probe_serial_executor_stops_after_first_matching_candidate() {
    let request = request_with(
        Matcher::Contains("pong".to_owned()),
        ProbeLimitsParams::default(),
        FailureOutputParam::Samples,
    );
    let mut first = SerialConfig::new("COM9");
    first.baudrate = 9_600;
    let mut second = SerialConfig::new("COM9");
    second.baudrate = 115_200;
    let candidates = vec![first, second];
    let attempts = Cell::new(0);
    let result = run_serial_resource_with_attempt("COM9", &candidates, &request, |_config, payload, _max| {
        attempts.set(attempts.get() + 1);
        assert_eq!(payload, b"ping");
        (
            CandidateAttempt::Response { sent_bytes: payload.len(), response: b"pong".to_vec() },
            0,
        )
    });
    assert_eq!(attempts.get(), 1);
    assert_eq!(result.attempted, 1);
    assert_eq!(result.successes.len(), 1);
    assert_eq!(result.successes[0].resource, "COM9");
    assert_eq!(result.successes[0].matched_by, "contains");
    match &result.successes[0].config {
        ProbeConfig::Serial(config) => assert_eq!(config.baudrate, 9_600),
        ProbeConfig::Visa(_) => panic!("serial candidate expected"),
    }
}

#[test]
fn serial_executor_records_misses_and_timeouts() {
    let request = request_with(
        Matcher::Contains("pong".to_owned()),
        ProbeLimitsParams::default(),
        FailureOutputParam::Samples,
    );
    let candidates = vec![SerialConfig::new("COM9"), SerialConfig::new("COM9")];
    let calls = Cell::new(0);
    let result = run_serial_resource_with_attempt("COM9", &candidates, &request, |_c, _p, _m| {
        calls.set(calls.get() + 1);
        if calls.get() == 1 {
            (CandidateAttempt::Response { sent_bytes: 4, response: b"nope".to_vec() }, 1)
        } else {
            (
                CandidateAttempt::Error {
                    status: ProbeAttemptStatus::ReadError,
                    error: DomainError::read_timeout(),
                },
                2,
            )
        }
    });
    assert_eq!(result.attempted, 2);
    assert_eq!(result.failures.len(), 2);
    assert_eq!(result.failures[0].status, ProbeAttemptStatus::MatcherMiss);
    assert_eq!(result.failures[0].response_preview.as_deref(), Some("nope"));
    assert_eq!(result.failures[1].error_code, Some(ErrorCode::ReadTimeout));
    assert_eq!(result.timed_out, 1);
}

#[test]
fn unit_probe_dispatch_stops_scheduling_after_first_total_success() {
    let mut limits = ProbeLimitsParams::default();
    limits.max_concurrency = 1;
    limits.stop_after_first_success_total = true;
    let request = request_with(Matcher::AnyResponse, limits, FailureOutputParam::Counts);
    let mut response = DeviceProbeResponse::new(2, Vec::new());
    let mut dispatched = Vec::new();
    for resource in ["COM1", "COM2"] {
        dispatched.push(resource);
        let mut result = ResourceProbeResult::new();
        result.successes.push(success(
            ProbeTarget::Serial,
            resource,
            ProbeConfig::Serial(SerialConfig::new(resource)),
            "any_response",
            4,
            b"pong",
            16,
            0,
        ));
        if response.absorb(result, &request) {
            break;
        }
    }
    assert_eq!(dispatched, vec!["COM1"]);
    assert_eq!(response.summary.resources_attempted, 1);
    assert!(response.summary.stopped_after_first_total_success);
    assert_eq!(probe_concurrency(1, 2), 1);
    assert_eq!(probe_concurrency(8, 0), 1);
    assert_eq!(probe_concurrency(8, 3), 3);
}

#[test]
fn absorb_caps_failure_samples_and_counts_statuses() {
    let mut limits = ProbeLimitsParams::default();
    limits.failure_sample_max = 1;
    let request = request_with(Matcher::AnyResponse, limits, FailureOutputParam::Samples);
    let mut response = DeviceProbeResponse::new(1, Vec::new());
    let mut result = ResourceProbeResult::new();
    for _ in 0..3 {
        result.failures.push(error_failure(
            ProbeTarget::Visa,
            "USB0::INSTR",
            ProbeConfig::Visa(VisaConfig::new("USB0::INSTR")),
            ProbeAttemptStatus::Unsupported,
            DomainError::feature_not_compiled("visa", "device_probe"),
        ));
    }
    result.attempted = 3;
    assert!(!response.absorb(result, &request));
    assert_eq!(response.failure_samples.len(), 1);
    assert_eq!(response.summary.failed_count, 3);
    assert_eq!(
        response.summary.failure_status_counts,
        vec![("unsupported".to_owned(), 3)]
    );
    assert_eq!(
        response.summary.failure_error_counts,
        vec![("FEATURE_NOT_COMPILED".to_owned(), 3)]
    );
}

#[test]
fn unit_probe_failure_sample_includes_hex_response_preview() {
    let sample = failure_sample(
        ProbeTarget::Serial,
        "COM9",
        ProbeConfig::Serial(SerialConfig::new("COM9")),
        ProbeAttemptStatus::MatcherMiss,
        None,
        Some("response did not match probe matcher".to_owned()),
        Some("Use response_hex/response_preview to refine the matcher, or use hex_regex for binary protocols.".to_owned()),
        Some(false),
        Some(&[0x01, 0x03, 0x02, 0x01, 0x0B, 0xE5, 0xEC]),
        32,
    );

    assert_eq!(sample.recv_bytes, Some(7));
    assert_eq!(sample.response_hex.as_deref(), Some("010302010be5ec"));
    assert_eq!(sample.retryable, Some(false));
}

#[test]
fn unit_probe_serial_not_found_open_error_is_reported_as_retryable() {
    let error = transport_error_to_domain(TransportError::invalid_address("serial port was not found"));
    let sample = error_failure(
        ProbeTarget::Serial,
        "COM9",
        ProbeConfig::Serial(SerialConfig::new("COM9")),
        ProbeAttemptStatus::OpenError,
        error,
    );

    assert_eq!(sample.error_code, Some(ErrorCode::InvalidAddress));
    assert_eq!(sample.retryable, Some(true));
    assert!(sample
        .recovery_hint
        .as_deref()
        .unwrap()
        .contains("transient open/enumeration"));
}

#[test]
fn unit_probe_visa_response_aggregates_chunked_response() {
    let mut chunks = ScriptedChunks::new(vec![b"ID".to_vec(), b"N".to_vec(), Vec::new()]);
    let response = read_visa_response(&mut chunks, 16).unwrap();
    assert_eq!(response, b"IDN");

    let mut long = ScriptedChunks::new(vec![b"ABCDEFGH".to_vec(), b"IJ".to_vec()]);
    assert_eq!(read_visa_response(&mut long, 4).unwrap(), b"ABCD");
}

#[test]
fn unit_probe_failure_output_defaults_to_counts_without_samples() {
    let params = DeviceProbeParams {
        targets: vec![ProbeTarget::Visa],
        serial: None,
        visa: Some(VisaProbeParams {
            resources: Some(vec!["USB0::0x0000::0x0000::SN::INSTR".to_owned()]),
            resource_filter: None,
            max_results: 1,
            open_timeout_ms: 1_000,
            io_timeout_ms: 1_000,
            read_termination: None,
            write_termination: None,
            encoding: ProbeEncoding::Text,
        }),
        payload: ProbePayloadParams {
            data: "*IDN?".to_owned(),
            encoding: ProbeEncoding::Text,
            append_line_break: true,
        },
        matcher: ProbeMatcherParams::AnyResponse,
        limits: ProbeLimitsParams::default(),
        failure_output: FailureOutputParam::Counts,
        include_failure_samples: false,
    };
    let limits = RuntimeLimits::default();
    let request = validate_request(params, &limits).unwrap();
    let plans = build_visa_plans(&request, &limits).unwrap();
    let mut response = DeviceProbeResponse::new(plans.len(), Vec::new());
    for plan in &plans {
        if let ResourcePlan::Visa { resource, candidates } = plan {
            let result = run_visa_resource(resource, candidates, &request);
            response.absorb(result, &request);
        }
    }
    assert!(response.failure_samples.is_empty());
    assert_eq!(response.summary.skipped_count, 1);
    assert_eq!(
        response.summary.failure_status_counts,
        vec![("unsupported".to_owned(), 1)]
    );
    assert_eq!(
        response.summary.failure_error_counts,
        vec![("FEATURE_NOT_COMPILED".to_owned(), 1)]
    );
}

#[test]
fn serial_plans_take_the_first_baud_rates_of_each_port() {
    let mut limits = ProbeLimitsParams::default();
    limits.max_candidates_per_resource = 2;
    let mut serial = serial_params();
    serial.baudrates = vec![9_600, 19_200, 115_200];
    serial.parity = ProbeParity::Even;
    let mut request = request_with(Matcher::AnyResponse, limits, FailureOutputParam::Counts);
    request.serial = Some(serial);
    let plans = build_serial_plans(
        &request,
        &RuntimeLimits::default(),
        vec!["COM1".to_owned(), "COM2".to_owned()],
    )
    .unwrap();
    assert_eq!(plans.len(), 2);
    match &plans[1] {
        ResourcePlan::Serial { resource, candidates } => {
            assert_eq!(resource, "COM2");
            assert_eq!(candidates.len(), 2);
            assert_eq!(candidates[1].baudrate, 19_200);
            assert_eq!(candidates[1].parity, Parity::Even);
            assert_eq!(candidates[1].port, "COM2");
        }
        ResourcePlan::Visa { .. } => panic!("serial plan expected"),
    }
    let too_many: Vec<String> = (0..40).map(|i| format!("COM{i}")).collect();
    assert_eq!(
        build_serial_plans(&request, &RuntimeLimits::default(), too_many).unwrap_err().code,
        ErrorCode::ScanRangeTooLarge
    );
}

#[test]
fn visa_plans_check_each_resource_and_scan_is_unavailable() {
    let request = request_with(Matcher::AnyResponse, ProbeLimitsParams::default(), FailureOutputParam::Counts);
    let plans = visa_plans_for(&request, &RuntimeLimits::default(), vec!["ASRL3::INSTR".to_owned()]).unwrap();
    assert_eq!(plans.len(), 1);
    let refused = visa_plans_for(
        &request,
        &RuntimeLimits::default(),
        vec!["TCPIP0::192.0.2.1::INSTR".to_owned()],
    )
    .unwrap_err();
    assert_eq!(refused.code, ErrorCode::ScanTargetNotAllowed);
    assert_eq!(
        build_visa_plans(&request, &RuntimeLimits::default()).unwrap_err().code,
        ErrorCode::FeatureNotCompiled
    );
}

#[test]
fn counts_are_kept_per_key() {
    let mut counts = Vec::new();
    bump_count(&mut counts, "timeout");
    bump_count(&mut counts, "open_error");
    bump_count(&mut counts, "timeout");
    assert_eq!(
        counts,
        vec![("timeout".to_owned(), 2), ("open_error".to_owned(), 1)]
    );
    assert_eq!(ProbeAttemptStatus::LimitSkipped.as_str(), "limit_skipped");
    assert_eq!(PayloadEncoding::Hex, port_mcp::probe::params::map_encoding(ProbeEncoding::Hex));
}

#[test]
fn visa_response_stops_on_failed_reads_and_keeps_bytes_before_a_time_out() {
    let mut empty = ScriptedChunks::new(Vec::new());
    assert_eq!(read_visa_response(&mut empty, 8).unwrap(), Vec::<u8>::new());
    let mut none_wanted = ScriptedChunks::new(vec![b"AB".to_vec()]);
    assert_eq!(read_visa_response(&mut none_wanted, 0).unwrap(), Vec::<u8>::new());
    let mut source = ScriptedChunks::new(vec![b"ok".to_vec()]);
    assert_eq!(source.next_chunk(4).unwrap(), b"ok".to_vec());
    assert_eq!(source.next_chunk(4).unwrap(), Vec::<u8>::new());
}

#[test]
fn visa_probe_of_a_checked_request_counts_unsupported_candidates() {
    let params = DeviceProbeParams {
        targets: vec![ProbeTarget::Visa],
        serial: None,
        visa: Some(VisaProbeParams {
            resources: Some(vec!["USB0::0x0000::0x0000::SN::INSTR".to_owned()]),
            resource_filter: None,
            max_results: 1,
            open_timeout_ms: 1_000,
            io_timeout_ms: 1_000,
            read_termination: None,
            write_termination: None,
            encoding: ProbeEncoding::Text,
        }),
        payload: ProbePayloadParams {
            data: "*IDN?".to_owned(),
            encoding: ProbeEncoding::Text,
            append_line_break: true,
        },
        matcher: ProbeMatcherParams::AnyResponse,
        limits: ProbeLimitsParams::default(),
        failure_output: FailureOutputParam::Counts,
        include_failure_samples: false,
    };
    let response = probe_visa_resources(params, &RuntimeLimits::default()).unwrap();
    assert!(response.successes.is_empty());
    assert_eq!(response.summary.resources_attempted, 1);
    assert_eq!(response.summary.skipped_count, 1);
    assert_eq!(response.summary.failure_status_counts, vec![("unsupported".to_owned(), 1)]);
    assert_eq!(response.summary.failure_error_counts, vec![("FEATURE_NOT_COMPILED".to_owned(), 1)]);
}

#[test]
fn serial_response_reading_steps() {
    assert_eq!(serial_read_room(0, 4), Some(4));
    assert_eq!(serial_read_room(4, 4), None);
    let mut response = Vec::new();
    assert_eq!(serial_read_absorb(&mut response, Ok(b"PO".to_vec())).unwrap(), true);
    assert_eq!(serial_read_absorb(&mut response, Ok(b"NG".to_vec())).unwrap(), true);
    assert_eq!(response, b"PONG".to_vec());
    assert_eq!(serial_read_absorb(&mut response, Err(TransportError::read_timeout("t"))).unwrap(), false);
    let mut empty = Vec::new();
    let error = serial_read_absorb(&mut empty, Err(TransportError::read_timeout("t"))).unwrap_err();
    assert_eq!(error.code, ErrorCode::ReadTimeout);
}

#[test]
fn family_plans_are_joined_and_no_plan_is_an_error() {
    let serial_plan = ResourcePlan::Visa { resource: "USB0::INSTR".to_owned(), candidates: Vec::new() };
    let (plans, errors) =
        gather_plans(Some(Ok(vec![serial_plan])), Some(Err(DomainError::read_timeout()))).unwrap();
    assert_eq!(plans.len(), 1);
    assert_eq!(errors.len(), 1);
    assert_eq!(errors[0].0, ProbeTarget::Visa);

    let error = gather_plans(None, Some(Err(DomainError::read_timeout()))).unwrap_err();
    assert_eq!(error.code, ErrorCode::NoDataAvailable);
    assert_eq!(error.message, "device_probe found no executable resources.");
    assert_eq!(error.details.entries[0].0, "family_errors");
    match &error.details.entries[0].1 {
        port_mcp::model::error::DetailValue::Fields(fields) => {
            assert_eq!(fields, &vec![("Visa".to_owned(), "READ_TIMEOUT".to_owned())])
        }
        _ => panic!("family errors are listed as fields"),
    }
    assert!(gather_plans(None, None).is_err());
}
