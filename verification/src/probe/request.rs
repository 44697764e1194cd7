//! Checking a probe request before any resource is touched.
use vstd::prelude::*;
use vstd::string::StringSliceAdditionalSpecFns;

use crate::model::data::{payload_outcome, with_line_break, Payload};
use crate::model::error::{error_text, DetailValue, DetailView, DomainError, ErrorCategory, ErrorCode};
use crate::model::limits::{budget_error, range_error, range_exceeded, RuntimeLimits, ABS_MAX_TOTAL_BUFFER_BYTES};
use crate::probe::matcher::{invalid_field, invalid_field_error, matcher_outcome, validate_matcher, Matcher};
use crate::probe::params::{
    DeviceProbeParams, FailureOutputParam, ProbeEncoding, ProbeLimitsParams, ProbePayloadParams,
    ProbeTarget, SerialProbeParams, VisaProbeParams,
};
use crate::util::decimal::push_padded_decimal;
use crate::util::encoding::{hex_decode, hex_outcome, is_hex_text, text_outcome};
use crate::util::text::{concat};

verus! {

/// A checked probe request, ready to be planned and run.
#[derive(Debug, Clone)]
pub struct ProbeRequest {
    pub targets: Vec<ProbeTarget>,
    pub serial: Option<SerialProbeParams>,
    pub visa: Option<VisaProbeParams>,
    pub payload: Vec<u8>,
    pub matcher: Matcher,
    pub limits: ProbeLimitsParams,
    pub failure_output: FailureOutputParam,
}

impl ProbeRequest {
    pub open spec fn wf(&self) -> bool {
        &&& self.matcher.wf()
        &&& self.payload@.len() > 0
    }
}

/// Accepts `actual` within `min..=max`, else the range error for `field`.
pub fn validate_limit_range(field: &str, actual: u64, min: u64, max: u64) -> (r: Result<(), DomainError>)
    ensures
        match r {
            Ok(()) => min <= actual <= max,
            Err(e) => !(min <= actual <= max) && range_error(
                e,
                field@,
                min as int,
                max as int,
                actual as int,
            ) && e.message@ == field@ + " is outside the allowed range."@,
        },
{
    if min <= actual && actual <= max {
        Ok(())
    } else {
        let message = concat(field, " is outside the allowed range.");
        let mut hint = "Use a value between ".to_owned();
        push_padded_decimal(&mut hint, min, 1);
        hint.append(" and ");
        push_padded_decimal(&mut hint, max, 1);
        hint.append(".");
        Err(range_exceeded(message.as_str(), hint.as_str(), field, min, max, actual))
    }
}

/// The first bound a probe's limits break: the field, its bounds and its value.
pub open spec fn first_limit_violation(l: ProbeLimitsParams, rl: RuntimeLimits) -> Option<
    (Seq<char>, int, int, int),
> {
    if !(1 <= l.max_resources <= 128) {
        Some(("limits.max_resources"@, 1, 128, l.max_resources as int))
    } else if !(1 <= l.max_candidates_per_resource <= 64) {
        Some(("limits.max_candidates_per_resource"@, 1, 64, l.max_candidates_per_resource as int))
    } else if !(1 <= l.max_concurrency <= 32) {
        Some(("limits.max_concurrency"@, 1, 32, l.max_concurrency as int))
    } else if !(1 <= l.payload_max_bytes <= rl.tx_frame_max_bytes) {
        Some(("limits.payload_max_bytes"@, 1, rl.tx_frame_max_bytes as int, l.payload_max_bytes as int))
    } else if !(1 <= l.response_max_bytes <= rl.pull_max_bytes) {
        Some(("limits.response_max_bytes"@, 1, rl.pull_max_bytes as int, l.response_max_bytes as int))
    } else if !(1 <= l.regex_pattern_max_bytes <= 4096) {
        Some(("limits.regex_pattern_max_bytes"@, 1, 4096, l.regex_pattern_max_bytes as int))
    } else if !(1 <= l.total_timeout_ms <= rl.scan_total_timeout_ms) {
        Some(("limits.total_timeout_ms"@, 1, rl.scan_total_timeout_ms as int, l.total_timeout_ms as int))
    } else if !(l.failure_sample_max <= 64) {
        Some(("limits.failure_sample_max"@, 0, 64, l.failure_sample_max as int))
    } else {
        None
    }
}

/// `e` reports the violated bound `v`.
pub open spec fn violation_error(e: DomainError, v: (Seq<char>, int, int, int)) -> bool {
    &&& range_error(e, v.0, v.1, v.2, v.3)
    &&& e.message@ == v.0 + " is outside the allowed range."@
}

/// Checks each probe limit against its fixed or runtime bound, in order.
pub fn validate_limits(limits: &ProbeLimitsParams, runtime_limits: &RuntimeLimits) -> (r: Result<
    (),
    DomainError,
>)
    ensures
        match first_limit_violation(*limits, *runtime_limits) {
            None => r is Ok,
            Some(v) => r matches Err(e) && violation_error(e, v),
        },
{
    match validate_limit_range("limits.max_resources", limits.max_resources as u64, 1, 128) {
        Ok(()) => {},
        Err(e) => return Err(e),
    }
    match validate_limit_range(
        "limits.max_candidates_per_resource",
        limits.max_candidates_per_resource as u64,
        1,
        64,
    ) {
        Ok(()) => {},
        Err(e) => return Err(e),
    }
    match validate_limit_range("limits.max_concurrency", limits.max_concurrency as u64, 1, 32) {
        Ok(()) => {},
        Err(e) => return Err(e),
    }
    match validate_limit_range(
        "limits.payload_max_bytes",
        limits.payload_max_bytes as u64,
        1,
        runtime_limits.tx_frame_max_bytes as u64,
    ) {
        Ok(()) => {},
        Err(e) => return Err(e),
    }
    match validate_limit_range(
        "limits.response_max_bytes",
        limits.response_max_bytes as u64,
        1,
        runtime_limits.pull_max_bytes as u64,
    ) {
        Ok(()) => {},
        Err(e) => return Err(e),
    }
    match validate_limit_range(
        "limits.regex_pattern_max_bytes",
        limits.regex_pattern_max_bytes as u64,
        1,
        4096,
    ) {
        Ok(()) => {},
        Err(e) => return Err(e),
    }
    match validate_limit_range(
        "limits.total_timeout_ms",
        limits.total_timeout_ms,
        1,
        runtime_limits.scan_total_timeout_ms,
    ) {
        Ok(()) => {},
        Err(e) => return Err(e),
    }
    validate_limit_range("limits.failure_sample_max", limits.failure_sample_max as u64, 0, 64)
}

/// The bytes a probe payload stands for, when it decodes.
pub open spec fn probe_payload(p: ProbePayloadParams) -> Option<Seq<u8>> {
    let b = vstd::utf8::encode_utf8(p.data@);
    match p.encoding {
        ProbeEncoding::Text => if b.len() > ABS_MAX_TOTAL_BUFFER_BYTES {
            None
        } else {
            Some(with_line_break(b, p.append_line_break))
        },
        ProbeEncoding::Hex => if !is_hex_text(b) || b.len() / 2 > ABS_MAX_TOTAL_BUFFER_BYTES {
            None
        } else {
            Some(with_line_break(hex_decode(b), p.append_line_break))
        },
    }
}

/// `e` is the decoding failure of a probe payload.
pub open spec fn probe_payload_error(p: ProbePayloadParams, e: DomainError) -> bool {
    let b = vstd::utf8::encode_utf8(p.data@);
    match p.encoding {
        ProbeEncoding::Text => text_outcome(b, "input_string"@, ABS_MAX_TOTAL_BUFFER_BYTES as int, Err(e)),
        ProbeEncoding::Hex => hex_outcome(b, "hex"@, ABS_MAX_TOTAL_BUFFER_BYTES as int, Err(e)),
    }
}

fn decode_payload(p: &ProbePayloadParams) -> (r: Result<Payload, DomainError>)
    ensures
        match probe_payload(*p) {
            Some(b) => r matches Ok(q) && q.bytes@ == b,
            None => r matches Err(e) && probe_payload_error(*p, e),
        },
{
    match p.encoding {
        ProbeEncoding::Text => {
            let r = Payload::from_text(p.data.as_str(), p.append_line_break);
            proof {
                let d = choose|d: Result<Seq<u8>, DomainError>|
                    text_outcome(vstd::utf8::encode_utf8(p.data@), "input_string"@, ABS_MAX_TOTAL_BUFFER_BYTES as int, d)
                        && payload_outcome(d, crate::model::config::PayloadEncoding::Text, p.append_line_break, r);
            }
            r
        },
        ProbeEncoding::Hex => {
            let r = Payload::from_hex(p.data.as_str(), p.append_line_break);
            proof {
                let d = choose|d: Result<Seq<u8>, DomainError>|
                    hex_outcome(vstd::utf8::encode_utf8(p.data@), "hex"@, ABS_MAX_TOTAL_BUFFER_BYTES as int, d)
                        && payload_outcome(d, crate::model::config::PayloadEncoding::Hex, p.append_line_break, r);
            }
            r
        },
    }
}

/// Whether `targets` names `t`.
pub fn has_target(targets: &Vec<ProbeTarget>, t: ProbeTarget) -> (b: bool)
    ensures
        b == targets@.contains(t),
{
    let mut i: usize = 0;
    while i < targets.len()
        invariant
            i <= targets@.len(),
            forall|j: int| 0 <= j < i ==> targets@[j] != t,
        decreases targets@.len() - i,
    {
        if targets[i] == t {
            return true;
        }
        i = i + 1;
    }
    false
}

/// `e` refuses a payload longer than the probe's own limit.
pub open spec fn payload_limit_error(e: DomainError, limit: int, actual: int) -> bool {
    &&& e.category == ErrorCategory::BufferLimitExceeded
    &&& e.code == ErrorCode::TxFrameTooLarge
    &&& !e.retryable
    &&& e.details@ == seq![
        ("field"@, DetailView::Text("payload.data"@)),
        ("limit"@, DetailView::Number(limit)),
        ("actual"@, DetailView::Number(actual)),
    ]
    &&& error_text(
        e,
        "device_probe payload exceeds payload_max_bytes."@,
        "Reduce payload size or raise payload_max_bytes within the allowed hard limit."@,
    )
}

/// `e` says a serial probe needs its serial settings.
pub open spec fn serial_missing_error(e: DomainError) -> bool {
    &&& e.category == ErrorCategory::InvalidArgument
    &&& e.code == ErrorCode::MissingRequiredField
    &&& !e.retryable
    &&& e.details@ == seq![("field"@, DetailView::Text("serial"@))]
    &&& error_text(
        e,
        "device_probe serial config is required when targets contains Serial."@,
        "Pass serial with at least a baudrates list."@,
    )
}

/// The checks that follow a valid matcher `m`, and the request they give.
pub open spec fn families_outcome(
    params: DeviceProbeParams,
    rl: RuntimeLimits,
    bytes: Seq<u8>,
    m: Matcher,
    r: Result<ProbeRequest, DomainError>,
) -> bool {
    let io_max = rl.io_timeout_max_ms as int;
    let serial_wanted = params.targets@.contains(ProbeTarget::Serial);
    let visa_wanted = params.targets@.contains(ProbeTarget::Visa);
    if serial_wanted && params.serial is None {
        r matches Err(e) && serial_missing_error(e)
    } else if serial_wanted && params.serial.unwrap().baudrates@.len() == 0 {
        r matches Err(e) && invalid_field_error(
            e,
            "serial.baudrates"@,
            "serial baudrates must not be empty."@,
        )
    } else if serial_wanted && !(1 <= params.serial.unwrap().timeout_ms <= io_max) {
        r matches Err(e) && range_error(
            e,
            "serial.timeout_ms"@,
            1,
            io_max,
            params.serial.unwrap().timeout_ms as int,
        )
    } else if visa_wanted && params.visa is Some && !(1 <= params.visa.unwrap().open_timeout_ms
        <= io_max) {
        r matches Err(e) && range_error(
            e,
            "visa.open_timeout_ms"@,
            1,
            io_max,
            params.visa.unwrap().open_timeout_ms as int,
        )
    } else if visa_wanted && params.visa is Some && !(1 <= params.visa.unwrap().io_timeout_ms
        <= io_max) {
        r matches Err(e) && range_error(
            e,
            "visa.io_timeout_ms"@,
            1,
            io_max,
            params.visa.unwrap().io_timeout_ms as int,
        )
    } else {
        r matches Ok(req) && {
            &&& req.targets@ == params.targets@
            &&& req.serial == params.serial
            &&& req.visa == params.visa
            &&& req.payload@ == bytes
            &&& req.matcher == m
            &&& req.limits == params.limits
            &&& req.failure_output == (if params.include_failure_samples {
                FailureOutputParam::Samples
            } else {
                params.failure_output
            })
        }
    }
}

/// How a probe request is checked, in order: targets, limits, payload
/// decoding, payload size, matcher, then the settings of each family.
pub open spec fn probe_request_outcome(
    params: DeviceProbeParams,
    rl: RuntimeLimits,
    r: Result<ProbeRequest, DomainError>,
) -> bool {
    let l = params.limits;
    if params.targets@.len() == 0 {
        r matches Err(e) && invalid_field_error(
            e,
            "targets"@,
            "device_probe targets must not be empty."@,
        )
    } else if first_limit_violation(l, rl) is Some {
        r matches Err(e) && violation_error(e, first_limit_violation(l, rl).unwrap())
    } else if probe_payload(params.payload) is None {
        r matches Err(e) && probe_payload_error(params.payload, e)
    } else {
        let bytes = probe_payload(params.payload).unwrap();
        if bytes.len() == 0 {
            r matches Err(e) && invalid_field_error(
                e,
                "payload.data"@,
                "device_probe payload must not be empty."@,
            )
        } else if bytes.len() > l.payload_max_bytes {
            r matches Err(e) && payload_limit_error(e, l.payload_max_bytes as int, bytes.len() as int)
        } else if bytes.len() > rl.tx_frame_max_bytes {
            r matches Err(e) && budget_error(
                e,
                ErrorCode::TxFrameTooLarge,
                true,
                rl.tx_frame_max_bytes as int,
                bytes.len() as int,
            )
        } else {
            exists|mr: Result<Matcher, DomainError>|
                #[trigger] matcher_outcome(
                    params.matcher,
                    rl.pull_max_bytes as int,
                    l.regex_pattern_max_bytes as int,
                    mr,
                ) && match mr {
                    Err(e) => r == Err::<ProbeRequest, DomainError>(e),
                    Ok(m) => families_outcome(params, rl, bytes, m, r),
                }
        }
    }
}

/// Checks a probe request: targets, limits, payload, matcher and the
/// settings of each requested family; failure output becomes `Samples`
/// when samples are asked for.
pub fn validate_request(params: DeviceProbeParams, runtime_limits: &RuntimeLimits) -> (r: Result<
    ProbeRequest,
    DomainError,
>)
    ensures
        probe_request_outcome(params, *runtime_limits, r),
        r matches Ok(req) ==> req.wf(),
{
    let ghost p0 = params;
    if params.targets.len() == 0 {
        return Err(invalid_field("targets", "device_probe targets must not be empty."));
    }
    match validate_limits(&params.limits, runtime_limits) {
        Ok(()) => {},
        Err(e) => return Err(e),
    }
    let payload = match decode_payload(&params.payload) {
        Ok(p) => p,
        Err(e) => return Err(e),
    };
    let len = payload.bytes.len();
    if len == 0 {
        return Err(invalid_field("payload.data", "device_probe payload must not be empty."));
    }
    if len > params.limits.payload_max_bytes {
        let e = DomainError::new(
            ErrorCategory::BufferLimitExceeded,
            ErrorCode::TxFrameTooLarge,
            "device_probe payload exceeds payload_max_bytes.",
            "Reduce payload size or raise payload_max_bytes within the allowed hard limit.",
            false,
        ).with_detail("field", DetailValue::Text("payload.data".to_owned())).with_detail(
            "limit",
            DetailValue::Number(params.limits.payload_max_bytes as u64),
        ).with_detail("actual", DetailValue::Number(len as u64));
        assert(e.details@ =~= seq![
            ("field"@, DetailView::Text("payload.data"@)),
            ("limit"@, DetailView::Number(params.limits.payload_max_bytes as int)),
            ("actual"@, DetailView::Number(len as int)),
        ]);
        return Err(e);
    }
    match runtime_limits.validate_tx_frame_len(len) {
        Ok(()) => {},
        Err(e) => return Err(e),
    }
    let matcher = match validate_matcher(
        params.matcher,
        runtime_limits,
        params.limits.regex_pattern_max_bytes,
    ) {
        Ok(m) => m,
        Err(e) => {
            assert(matcher_outcome(
                p0.matcher,
                runtime_limits.pull_max_bytes as int,
                p0.limits.regex_pattern_max_bytes as int,
                Err::<Matcher, DomainError>(e),
            ));
            return Err(e);
        },
    };
    assert(matcher_outcome(
        p0.matcher,
        runtime_limits.pull_max_bytes as int,
        p0.limits.regex_pattern_max_bytes as int,
        Ok::<Matcher, DomainError>(matcher),
    ));
    if has_target(&params.targets, ProbeTarget::Serial) {
        match &params.serial {
            None => {
                let e = DomainError::invalid_argument(
                    ErrorCode::MissingRequiredField,
                    "device_probe serial config is required when targets contains Serial.",
                    "Pass serial with at least a baudrates list.",
                ).with_detail("field", DetailValue::Text("serial".to_owned()));
                assert(e.details@ =~= seq![("field"@, DetailView::Text("serial"@))]);
                return Err(e);
            },
            Some(serial) => {
                if serial.baudrates.len() == 0 {
                    return Err(invalid_field("serial.baudrates", "serial baudrates must not be empty."));
                }
                match runtime_limits.validate_io_timeout_ms("serial.timeout_ms", serial.timeout_ms) {
                    Ok(_) => {},
                    Err(e) => return Err(e),
                }
            },
        }
    }
    if has_target(&params.targets, ProbeTarget::Visa) {
        match &params.visa {
            Some(visa) => {
                match runtime_limits.validate_io_timeout_ms("visa.open_timeout_ms", visa.open_timeout_ms) {
                    Ok(_) => {},
                    Err(e) => return Err(e),
                }
                match runtime_limits.validate_io_timeout_ms("visa.io_timeout_ms", visa.io_timeout_ms) {
                    Ok(_) => {},
                    Err(e) => return Err(e),
                }
            },
            None => {},
        }
    }
    let failure_output = if params.include_failure_samples {
        FailureOutputParam::Samples
    } else {
        params.failure_output
    };
    Ok(
        ProbeRequest {
            targets: params.targets,
            serial: params.serial,
            visa: params.visa,
            payload: payload.bytes,
            matcher,
            limits: params.limits,
            failure_output,
        },
    )
}

} // verus!
