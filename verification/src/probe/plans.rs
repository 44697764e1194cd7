//! Turning a checked probe request into per-resource candidate lists.
use vstd::prelude::*;

use crate::model::config::{opt_string, visa_outcome, SerialConfig, VisaConfig};
use crate::model::error::{DetailValue, DetailView, DomainError, ErrorCategory, ErrorCode};
use crate::model::limits::RuntimeLimits;
use crate::probe::params::{
    data_bits_of, encoding_of, flow_control_of, map_data_bits, map_encoding, map_flow_control,
    map_parity, map_stop_bits, parity_of, stop_bits_of, ProbeEncoding, SerialProbeParams,
    VisaProbeParams,
};
use crate::probe::request::ProbeRequest;
use crate::transport::visa::scan_visa_resources;

verus! {

/// The candidates to try on one resource.
#[derive(Debug, Clone)]
pub enum ResourcePlan {
    Serial { resource: String, candidates: Vec<SerialConfig> },
    Visa { resource: String, candidates: Vec<VisaConfig> },
}

/// `c` is the serial candidate for `port` at `baudrate` under the settings `s`.
pub open spec fn serial_candidate(c: SerialConfig, port: Seq<char>, baudrate: u32, s: SerialProbeParams) -> bool {
    &&& c.port@ == port
    &&& c.baudrate == baudrate
    &&& c.data_bits == data_bits_of(s.data_bits)
    &&& c.stop_bits == stop_bits_of(s.stop_bits)
    &&& c.parity == parity_of(s.parity)
    &&& c.flow_control == flow_control_of(s.flow_control)
    &&& c.timeout_ms == s.timeout_ms
    &&& c.encoding == encoding_of(s.encoding)
}

/// `p` tries the first `max` baud rates of `s` on `port`, in order.
pub open spec fn serial_plan_for(p: ResourcePlan, port: Seq<char>, s: SerialProbeParams, max: int) -> bool {
    p matches ResourcePlan::Serial { resource, candidates } && {
        &&& resource@ == port
        &&& candidates@.len() == (if s.baudrates@.len() < max {
            s.baudrates@.len() as int
        } else {
            max
        })
        &&& forall|j: int|
            0 <= j < candidates@.len() ==> serial_candidate(
                #[trigger] candidates@[j],
                port,
                s.baudrates@[j],
                s,
            )
    }
}

/// The texts of a list of strings.
pub open spec fn texts(v: Seq<String>) -> Seq<Seq<char>> {
    v.map_values(|s: String| s@)
}

/// A copy of a list of strings.
pub fn copy_strings(v: &Vec<String>) -> (c: Vec<String>)
    ensures
        texts(c@) == texts(v@),
{
    let mut c: Vec<String> = Vec::new();
    let mut i: usize = 0;
    while i < v.len()
        invariant
            i <= v@.len(),
            c@.len() == i,
            forall|k: int| 0 <= k < i ==> #[trigger] c@[k]@ == v@[k]@,
        decreases v@.len() - i,
    {
        c.push(v[i].clone());
        i = i + 1;
    }
    assert(texts(c@) =~= texts(v@));
    c
}

/// The explicit serial ports of a request, if it lists any; otherwise the
/// caller discovers them.
pub fn explicit_serial_ports(request: &ProbeRequest) -> (r: Option<Vec<String>>)
    requires
        request.serial is Some,
    ensures
        match request.serial.unwrap().ports {
            Some(p) => r matches Some(q) && texts(q@) == texts(p@),
            None => r is None,
        },
{
    match &request.serial {
        Some(serial) => match &serial.ports {
            Some(p) => Some(copy_strings(p)),
            None => None,
        },
        None => None,
    }
}

fn serial_candidate_config(port: &str, baudrate: u32, serial: &SerialProbeParams) -> (c: SerialConfig)
    ensures
        serial_candidate(c, port@, baudrate, *serial),
{
    let mut config = SerialConfig::new(port);
    config.baudrate = baudrate;
    config.data_bits = map_data_bits(serial.data_bits);
    config.stop_bits = map_stop_bits(serial.stop_bits);
    config.parity = map_parity(serial.parity);
    config.flow_control = map_flow_control(serial.flow_control);
    config.timeout_ms = serial.timeout_ms;
    config.encoding = map_encoding(serial.encoding);
    config
}

/// Plans the serial probe over `ports`: refused when there are more ports
/// than the probe or the scan limit allows; otherwise each port gets the
/// first `max_candidates_per_resource` baud rates.
pub fn build_serial_plans(request: &ProbeRequest, runtime_limits: &RuntimeLimits, ports: Vec<String>) -> (r:
    Result<Vec<ResourcePlan>, DomainError>)
    requires
        request.serial is Some,
    ensures
        ({
            let max_resources = request.limits.max_resources as int;
            let scan_max = runtime_limits.scan_max_ports as int;
            if ports@.len() > max_resources || ports@.len() > scan_max {
                r matches Err(e) && {
                    &&& e.category == ErrorCategory::BufferLimitExceeded
                    &&& e.code == ErrorCode::ScanRangeTooLarge
                    &&& !e.retryable
                    &&& e.details@ == seq![
                        ("field"@, DetailView::Text("serial.ports"@)),
                        ("limit"@, DetailView::Number(if max_resources < scan_max { max_resources } else { scan_max })),
                        ("actual"@, DetailView::Number(ports@.len() as int)),
                    ]
                }
            } else {
                r matches Ok(plans) && plans@.len() == ports@.len() && forall|i: int|
                    0 <= i < plans@.len() ==> serial_plan_for(
                        #[trigger] plans@[i],
                        ports@[i]@,
                        request.serial.unwrap(),
                        request.limits.max_candidates_per_resource as int,
                    )
            }
        }),
{
    let serial = match &request.serial {
        Some(s) => s,
        None => {
            return Ok(Vec::new());
        },
    };
    let max_resources = request.limits.max_resources;
    let scan_max = runtime_limits.scan_max_ports;
    if ports.len() > max_resources || ports.len() > scan_max {
        let limit = if max_resources < scan_max {
            max_resources
        } else {
            scan_max
        };
        let e = DomainError::new(
            ErrorCategory::BufferLimitExceeded,
            ErrorCode::ScanRangeTooLarge,
            "device_probe serial resources exceed max_resources.",
            "Reduce serial.ports or max_results before probing.",
            false,
        ).with_detail("field", DetailValue::Text("serial.ports".to_owned())).with_detail(
            "limit",
            DetailValue::Number(limit as u64),
        ).with_detail("actual", DetailValue::Number(ports.len() as u64));
        assert(e.details@ =~= seq![
            ("field"@, DetailView::Text("serial.ports"@)),
            ("limit"@, DetailView::Number(limit as int)),
            ("actual"@, DetailView::Number(ports@.len() as int)),
        ]);
        return Err(e);
    }
    let max_candidates = request.limits.max_candidates_per_resource;
    let count = if serial.baudrates.len() < max_candidates {
        serial.baudrates.len()
    } else {
        max_candidates
    };
    let mut plans: Vec<ResourcePlan> = Vec::new();
    let mut i: usize = 0;
    while i < ports.len()
        invariant
            i <= ports@.len(),
            plans@.len() == i,
            count <= serial.baudrates@.len(),
            count == (if serial.baudrates@.len() < max_candidates {
                serial.baudrates@.len() as int
            } else {
                max_candidates as int
            }),
            forall|k: int|
                0 <= k < i ==> serial_plan_for(
                    #[trigger] plans@[k],
                    ports@[k]@,
                    *serial,
                    max_candidates as int,
                ),
        decreases ports@.len() - i,
    {
        let port = ports[i].as_str();
        let mut candidates: Vec<SerialConfig> = Vec::new();
        let mut j: usize = 0;
        while j < count
            invariant
                j <= count,
                count <= serial.baudrates@.len(),
                candidates@.len() == j,
                port@ == ports@[i as int]@,
                forall|m: int|
                    0 <= m < j ==> serial_candidate(
                        #[trigger] candidates@[m],
                        port@,
                        serial.baudrates@[m],
                        *serial,
                    ),
            decreases count - j,
        {
            candidates.push(serial_candidate_config(port, serial.baudrates[j], serial));
            j = j + 1;
        }
        let plan = ResourcePlan::Serial { resource: port.to_owned(), candidates };
        assert(serial_plan_for(plan, ports@[i as int]@, *serial, max_candidates as int));
        plans.push(plan);
        i = i + 1;
    }
    Ok(plans)
}

/// The VISA settings of a request, or the defaults when it has none.
pub open spec fn visa_settings_of(request: ProbeRequest) -> VisaProbeParams {
    match request.visa {
        Some(v) => v,
        None => VisaProbeParams {
            resources: None,
            resource_filter: None,
            max_results: 128,
            open_timeout_ms: 1000,
            io_timeout_ms: 1000,
            read_termination: None,
            write_termination: None,
            encoding: ProbeEncoding::Text,
        },
    }
}

/// `c` is the VISA candidate for `resource` under the settings `v`.
pub open spec fn visa_candidate(c: VisaConfig, resource: Seq<char>, v: VisaProbeParams) -> bool {
    &&& c.resource_address@ == resource
    &&& c.open_timeout_ms == v.open_timeout_ms
    &&& c.io_timeout_ms == v.io_timeout_ms
    &&& opt_string(c.read_termination) == opt_string(v.read_termination)
    &&& opt_string(c.write_termination) == opt_string(v.write_termination)
    &&& c.encoding == encoding_of(v.encoding)
    &&& !c.query_idn_on_connect
}

/// A VISA candidate for `resource` fails its own checks.
pub open spec fn visa_candidate_rejected(resource: Seq<char>, v: VisaProbeParams, l: RuntimeLimits) -> bool {
    forall|c: VisaConfig| #[trigger] visa_candidate(c, resource, v) ==> !visa_outcome(c, l, Ok(()))
}

fn visa_candidate_config(resource: &str, visa: &VisaProbeParams) -> (c: VisaConfig)
    ensures
        visa_candidate(c, resource@, *visa),
{
    let mut config = VisaConfig::new(resource);
    config.open_timeout_ms = visa.open_timeout_ms;
    config.io_timeout_ms = visa.io_timeout_ms;
    config.read_termination = visa.read_termination.clone();
    config.write_termination = visa.write_termination.clone();
    config.encoding = map_encoding(visa.encoding);
    config
}

/// How explicit VISA resources are planned: refused when there are more
/// than `max_resources`; otherwise one checked candidate per resource, or the
/// error of the first candidate that fails its checks.
pub open spec fn visa_plans_outcome(
    request: ProbeRequest,
    rl: RuntimeLimits,
    resources: Seq<String>,
    r: Result<Vec<ResourcePlan>, DomainError>,
) -> bool {
    let v = visa_settings_of(request);
    let max_resources = request.limits.max_resources as int;
    if resources.len() > max_resources {
        r matches Err(e) && {
            &&& e.category == ErrorCategory::BufferLimitExceeded
            &&& e.code == ErrorCode::ScanRangeTooLarge
            &&& !e.retryable
            &&& e.details@ == seq![
                ("field"@, DetailView::Text("visa.resources"@)),
                ("limit"@, DetailView::Number(max_resources)),
                ("actual"@, DetailView::Number(resources.len() as int)),
            ]
        }
    } else {
        match r {
            Ok(plans) => {
                &&& plans@.len() == resources.len()
                &&& forall|i: int|
                    0 <= i < plans@.len() ==> (#[trigger] plans@[i] matches ResourcePlan::Visa {
                        resource,
                        candidates,
                    } && resource@ == resources[i]@ && candidates@.len() == 1
                        && visa_candidate(candidates@[0], resources[i]@, v) && visa_outcome(
                        candidates@[0],
                        rl,
                        Ok(()),
                    ))
            },
            Err(e) => exists|i: int|
                #![trigger resources[i]]
                0 <= i < resources.len() && (forall|k: int|
                    0 <= k < i ==> !visa_candidate_rejected(#[trigger] resources[k]@, v, rl))
                    && exists|c: VisaConfig|
                    #[trigger] visa_candidate(c, resources[i]@, v) && visa_outcome(
                        c,
                        rl,
                        Err(e),
                    ),
        }
    }
}

/// Plans the VISA probe over explicit `resources`.
pub fn visa_plans_for(request: &ProbeRequest, runtime_limits: &RuntimeLimits, resources: Vec<String>) -> (r:
    Result<Vec<ResourcePlan>, DomainError>)
    ensures
        visa_plans_outcome(*request, *runtime_limits, resources@, r),
{
    let defaults;
    let visa = match &request.visa {
        Some(v) => v,
        None => {
            defaults = VisaProbeParams::defaults();
            &defaults
        },
    };
    assert(*visa == visa_settings_of(*request)) by {
        if request.visa is None {
            assert(visa.resources == visa_settings_of(*request).resources);
        }
    }
    let max_resources = request.limits.max_resources;
    if resources.len() > max_resources {
        let e = DomainError::new(
            ErrorCategory::BufferLimitExceeded,
            ErrorCode::ScanRangeTooLarge,
            "device_probe VISA resources exceed max_resources.",
            "Reduce visa.resources or visa.max_results before probing.",
            false,
        ).with_detail("field", DetailValue::Text("visa.resources".to_owned())).with_detail(
            "limit",
            DetailValue::Number(max_resources as u64),
        ).with_detail("actual", DetailValue::Number(resources.len() as u64));
        assert(e.details@ =~= seq![
            ("field"@, DetailView::Text("visa.resources"@)),
            ("limit"@, DetailView::Number(max_resources as int)),
            ("actual"@, DetailView::Number(resources@.len() as int)),
        ]);
        return Err(e);
    }
    let mut plans: Vec<ResourcePlan> = Vec::new();
    let mut i: usize = 0;
    while i < resources.len()
        invariant
            i <= resources@.len(),
            resources@.len() <= request.limits.max_resources,
            plans@.len() == i,
            *visa == visa_settings_of(*request),
            forall|k: int|
                0 <= k < i ==> (#[trigger] plans@[k] matches ResourcePlan::Visa { resource, candidates }
                    && resource@ == resources@[k]@ && candidates@.len() == 1 && visa_candidate(
                    candidates@[0],
                    resources@[k]@,
                    *visa,
                ) && visa_outcome(candidates@[0], *runtime_limits, Ok(()))),
        decreases resources@.len() - i,
    {
        let resource = resources[i].as_str();
        let config = visa_candidate_config(resource, visa);
        match config.validate(runtime_limits) {
            Ok(()) => {},
            Err(e) => {
                proof {
                    assert forall|k: int| 0 <= k < i implies !visa_candidate_rejected(
                        #[trigger] resources@[k]@,
                        *visa,
                        *runtime_limits,
                    ) by {
                        let p = plans@[k];
                        if let ResourcePlan::Visa { resource, candidates } = p {
                            assert(visa_candidate(candidates@[0], resources@[k]@, *visa));
                        }
                    }
                    assert(visa_candidate(config, resources@[i as int]@, *visa));
                }
                return Err(e);
            },
        }
        let plan = ResourcePlan::Visa { resource: resource.to_owned(), candidates: vec![config] };
        plans.push(plan);
        i = i + 1;
    }
    Ok(plans)
}

/// Plans the VISA probe: explicit resources, or those a scan finds (the
/// filter defaults to `?*INSTR`, and at most `max_resources` are asked for).
pub fn build_visa_plans(request: &ProbeRequest, runtime_limits: &RuntimeLimits) -> (r: Result<
    Vec<ResourcePlan>,
    DomainError,
>)
    ensures
        match visa_settings_of(*request).resources {
            Some(list) => visa_plans_outcome(*request, *runtime_limits, list@, r),
            None => r matches Err(e) && crate::transport::visa::not_compiled(e, "port_scan"@),
        },
{
    let resources = match &request.visa {
        Some(v) => v.resources.clone(),
        None => None,
    };
    match resources {
        Some(list) => visa_plans_for(request, runtime_limits, list),
        None => {
            let defaults = VisaProbeParams::defaults();
            let visa = match &request.visa {
                Some(v) => v,
                None => &defaults,
            };
            let filter = match &visa.resource_filter {
                Some(f) => f.as_str(),
                None => "?*INSTR",
            };
            let max = if visa.max_results < request.limits.max_resources {
                visa.max_results
            } else {
                request.limits.max_resources
            };
            match scan_visa_resources(filter, max) {
                Ok(found) => {
                    let mut list: Vec<String> = Vec::new();
                    let mut i: usize = 0;
                    while i < found.resources.len()
                        decreases found.resources@.len() - i,
                    {
                        list.push(found.resources[i].resource_address.clone());
                        i = i + 1;
                    }
                    visa_plans_for(request, runtime_limits, list)
                },
                Err(e) => Err(e),
            }
        },
    }
}

} // verus!
