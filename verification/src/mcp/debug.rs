//! Debug sessions: stored profile defaults, how they combine with the
//! arguments of a call, and the configuration a debug connect applies.
use vstd::prelude::*;

use crate::mcp::params::{
    data_bits_of, default_baudrate, default_data_bits, default_stop_bits, default_timeout_ms,
    encoding_of, flow_control_of, map_data_bits, map_encoding, map_flow_control, map_parity,
    map_stop_bits, map_tcp_mode, parity_of, stop_bits_of, tcp_mode_of, DataBitsParam,
    DebugConnectParams, DebugExchangeParams, DebugPayloadDefaultsParams, DebugProfileParams,
    DebugPullDefaultsParams, DebugSerialProfileParams, DebugTcpProfileParams, DebugUdpProfileParams,
    DebugVisaProfileParams, EncodingParam, FlowControlParam, InstanceTypeParam, ParityParam,
    StopBitsParam, TcpModeParam,
};
use crate::model::config::{opt_string, SerialConfig, TcpConfig, UdpConfig, VisaConfig};
use crate::model::error::{DetailValue, DetailView, DomainError, ErrorCategory, ErrorCode};
use crate::model::state::{state_name, InstanceState, InstanceType};
use crate::runtime::buffers::PullResult;

verus! {

/// How a debug session is keyed.
#[derive(Debug, Clone, Copy, PartialEq, Eq, Structural)]
pub enum SessionMode {
    RequestContextDebug,
}

impl SessionMode {
    pub fn as_str(self) -> (s: &'static str)
        ensures
            s@ == "request_context_debug"@,
    {
        proof {
            reveal_strlit("request_context_debug");
        }
        match self {
            SessionMode::RequestContextDebug => "request_context_debug",
        }
    }
}

/// The value a call gives, else the stored one.
pub open spec fn pick<T>(call: Option<T>, stored: Option<T>) -> Option<T> {
    if call is Some {
        call
    } else {
        stored
    }
}

pub open spec fn pick_text(call: Option<String>, stored: Option<String>) -> Option<Seq<char>> {
    if call is Some {
        opt_string(call)
    } else {
        opt_string(stored)
    }
}

fn copy_text(o: &Option<String>) -> (r: Option<String>)
    ensures
        opt_string(r) == opt_string(*o),
{
    match o {
        Some(s) => Some(s.clone()),
        None => None,
    }
}

fn pick_string(call: &Option<String>, stored: &Option<String>) -> (r: Option<String>)
    ensures
        opt_string(r) == pick_text(*call, *stored),
{
    if call.is_some() {
        copy_text(call)
    } else {
        copy_text(stored)
    }
}

fn pick_copy<T: Copy>(call: Option<T>, stored: Option<T>) -> (r: Option<T>)
    ensures
        r == pick(call, stored),
{
    if call.is_some() {
        call
    } else {
        stored
    }
}

/// Serial defaults from a profile, overridden field by field by a call.
pub fn merge_serial_profile(
    base: Option<&DebugSerialProfileParams>,
    override_value: Option<&DebugSerialProfileParams>,
) -> (m: DebugSerialProfileParams)
    ensures
        opt_string(m.port) == pick_text(
            match override_value { Some(o) => o.port, None => None },
            match base { Some(b) => b.port, None => None },
        ),
        m.baudrate == pick(
            match override_value { Some(o) => o.baudrate, None => None },
            match base { Some(b) => b.baudrate, None => None },
        ),
        m.data_bits == pick(
            match override_value { Some(o) => o.data_bits, None => None },
            match base { Some(b) => b.data_bits, None => None },
        ),
        m.stop_bits == pick(
            match override_value { Some(o) => o.stop_bits, None => None },
            match base { Some(b) => b.stop_bits, None => None },
        ),
        m.parity == pick(
            match override_value { Some(o) => o.parity, None => None },
            match base { Some(b) => b.parity, None => None },
        ),
        m.flow_control == pick(
            match override_value { Some(o) => o.flow_control, None => None },
            match base { Some(b) => b.flow_control, None => None },
        ),
        m.timeout_ms == pick(
            match override_value { Some(o) => o.timeout_ms, None => None },
            match base { Some(b) => b.timeout_ms, None => None },
        ),
        m.encoding == pick(
            match override_value { Some(o) => o.encoding, None => None },
            match base { Some(b) => b.encoding, None => None },
        ),
{
    let none: Option<String> = None;
    let (bp, bb, bd, bs, bpar, bf, bt, be) = match base {
        Some(b) => (&b.port, b.baudrate, b.data_bits, b.stop_bits, b.parity, b.flow_control, b.timeout_ms, b.encoding),
        None => (&none, None, None, None, None, None, None, None),
    };
    let (op, ob, od, os, opar, of, ot, oe) = match override_value {
        Some(o) => (&o.port, o.baudrate, o.data_bits, o.stop_bits, o.parity, o.flow_control, o.timeout_ms, o.encoding),
        None => (&none, None, None, None, None, None, None, None),
    };
    DebugSerialProfileParams {
        port: pick_string(op, bp),
        baudrate: pick_copy(ob, bb),
        data_bits: pick_copy(od, bd),
        stop_bits: pick_copy(os, bs),
        parity: pick_copy(opar, bpar),
        flow_control: pick_copy(of, bf),
        timeout_ms: pick_copy(ot, bt),
        encoding: pick_copy(oe, be),
    }
}

/// TCP defaults from a profile, overridden field by field by a call.
pub fn merge_tcp_profile(
    base: Option<&DebugTcpProfileParams>,
    override_value: Option<&DebugTcpProfileParams>,
) -> (m: DebugTcpProfileParams)
    ensures
        m.mode == pick(
            match override_value { Some(o) => o.mode, None => None },
            match base { Some(b) => b.mode, None => None },
        ),
        opt_string(m.host) == pick_text(
            match override_value { Some(o) => o.host, None => None },
            match base { Some(b) => b.host, None => None },
        ),
        m.port == pick(
            match override_value { Some(o) => o.port, None => None },
            match base { Some(b) => b.port, None => None },
        ),
        opt_string(m.bind_host) == pick_text(
            match override_value { Some(o) => o.bind_host, None => None },
            match base { Some(b) => b.bind_host, None => None },
        ),
        m.bind_port == pick(
            match override_value { Some(o) => o.bind_port, None => None },
            match base { Some(b) => b.bind_port, None => None },
        ),
        m.timeout_ms == pick(
            match override_value { Some(o) => o.timeout_ms, None => None },
            match base { Some(b) => b.timeout_ms, None => None },
        ),
{
    let none: Option<String> = None;
    let (bm, bh, bp, bbh, bbp, bt) = match base {
        Some(b) => (b.mode, &b.host, b.port, &b.bind_host, b.bind_port, b.timeout_ms),
        None => (None, &none, None, &none, None, None),
    };
    let (om, oh, op, obh, obp, ot) = match override_value {
        Some(o) => (o.mode, &o.host, o.port, &o.bind_host, o.bind_port, o.timeout_ms),
        None => (None, &none, None, &none, None, None),
    };
    DebugTcpProfileParams {
        mode: pick_copy(om, bm),
        host: pick_string(oh, bh),
        port: pick_copy(op, bp),
        bind_host: pick_string(obh, bbh),
        bind_port: pick_copy(obp, bbp),
        timeout_ms: pick_copy(ot, bt),
    }
}

/// UDP defaults from a profile, overridden field by field by a call.
pub fn merge_udp_profile(
    base: Option<&DebugUdpProfileParams>,
    override_value: Option<&DebugUdpProfileParams>,
) -> (m: DebugUdpProfileParams)
    ensures
        opt_string(m.bind_host) == pick_text(
            match override_value { Some(o) => o.bind_host, None => None },
            match base { Some(b) => b.bind_host, None => None },
        ),
        m.bind_port == pick(
            match override_value { Some(o) => o.bind_port, None => None },
            match base { Some(b) => b.bind_port, None => None },
        ),
        opt_string(m.remote_host) == pick_text(
            match override_value { Some(o) => o.remote_host, None => None },
            match base { Some(b) => b.remote_host, None => None },
        ),
        m.remote_port == pick(
            match override_value { Some(o) => o.remote_port, None => None },
            match base { Some(b) => b.remote_port, None => None },
        ),
        m.timeout_ms == pick(
            match override_value { Some(o) => o.timeout_ms, None => None },
            match base { Some(b) => b.timeout_ms, None => None },
        ),
{
    let none: Option<String> = None;
    let (bbh, bbp, brh, brp, bt) = match base {
        Some(b) => (&b.bind_host, b.bind_port, &b.remote_host, b.remote_port, b.timeout_ms),
        None => (&none, None, &none, None, None),
    };
    let (obh, obp, orh, orp, ot) = match override_value {
        Some(o) => (&o.bind_host, o.bind_port, &o.remote_host, o.remote_port, o.timeout_ms),
        None => (&none, None, &none, None, None),
    };
    DebugUdpProfileParams {
        bind_host: pick_string(obh, bbh),
        bind_port: pick_copy(obp, bbp),
        remote_host: pick_string(orh, brh),
        remote_port: pick_copy(orp, brp),
        timeout_ms: pick_copy(ot, bt),
    }
}

/// VISA defaults from a profile, overridden field by field by a call.
pub fn merge_visa_profile(
    base: Option<&DebugVisaProfileParams>,
    override_value: Option<&DebugVisaProfileParams>,
) -> (m: DebugVisaProfileParams)
    ensures
        opt_string(m.resource_address) == pick_text(
            match override_value { Some(o) => o.resource_address, None => None },
            match base { Some(b) => b.resource_address, None => None },
        ),
        m.open_timeout_ms == pick(
            match override_value { Some(o) => o.open_timeout_ms, None => None },
            match base { Some(b) => b.open_timeout_ms, None => None },
        ),
        m.io_timeout_ms == pick(
            match override_value { Some(o) => o.io_timeout_ms, None => None },
            match base { Some(b) => b.io_timeout_ms, None => None },
        ),
        opt_string(m.read_termination) == pick_text(
            match override_value { Some(o) => o.read_termination, None => None },
            match base { Some(b) => b.read_termination, None => None },
        ),
        opt_string(m.write_termination) == pick_text(
            match override_value { Some(o) => o.write_termination, None => None },
            match base { Some(b) => b.write_termination, None => None },
        ),
        m.encoding == pick(
            match override_value { Some(o) => o.encoding, None => None },
            match base { Some(b) => b.encoding, None => None },
        ),
        m.query_idn_on_connect == pick(
            match override_value { Some(o) => o.query_idn_on_connect, None => None },
            match base { Some(b) => b.query_idn_on_connect, None => None },
        ),
{
    let none: Option<String> = None;
    let (ba, bo, bi, br, bw, be, bq) = match base {
        Some(b) => (&b.resource_address, b.open_timeout_ms, b.io_timeout_ms, &b.read_termination, &b.write_termination, b.encoding, b.query_idn_on_connect),
        None => (&none, None, None, &none, &none, None, None),
    };
    let (oa, oo, oi, or, ow, oe, oq) = match override_value {
        Some(o) => (&o.resource_address, o.open_timeout_ms, o.io_timeout_ms, &o.read_termination, &o.write_termination, o.encoding, o.query_idn_on_connect),
        None => (&none, None, None, &none, &none, None, None),
    };
    DebugVisaProfileParams {
        resource_address: pick_string(oa, ba),
        open_timeout_ms: pick_copy(oo, bo),
        io_timeout_ms: pick_copy(oi, bi),
        read_termination: pick_string(or, br),
        write_termination: pick_string(ow, bw),
        encoding: pick_copy(oe, be),
        query_idn_on_connect: pick_copy(oq, bq),
    }
}

/// The defaults a debug session keeps between calls.
#[derive(Debug, Clone)]
pub struct DebugProfile {
    pub transport: Option<InstanceTypeParam>,
    pub serial: Option<DebugSerialProfileParams>,
    pub tcp: Option<DebugTcpProfileParams>,
    pub udp: Option<DebugUdpProfileParams>,
    pub visa: Option<DebugVisaProfileParams>,
    pub payload: Option<DebugPayloadDefaultsParams>,
    pub pull: Option<DebugPullDefaultsParams>,
    pub bound_handle_id: Option<String>,
}

impl DebugProfile {
    /// The profile a set call stores: its sections as given, and the bound
    /// handle when one is given (an explicit null clears it).
    pub fn from_params(params: DebugProfileParams) -> (p: Self)
        ensures
            p.transport == params.transport,
            p.serial == params.serial,
            p.tcp == params.tcp,
            p.udp == params.udp,
            p.visa == params.visa,
            p.payload == params.payload,
            p.pull == params.pull,
            p.bound_handle_id == match params.bound_handle_id {
                Some(inner) => inner,
                None => None,
            },
    {
        DebugProfile {
            transport: params.transport,
            serial: params.serial,
            tcp: params.tcp,
            udp: params.udp,
            visa: params.visa,
            payload: params.payload,
            pull: params.pull,
            bound_handle_id: match params.bound_handle_id {
                Some(inner) => inner,
                None => None,
            },
        }
    }
}

/// The configuration a debug connect applies.
#[derive(Debug, Clone)]
pub enum DebugConfig {
    Serial(SerialConfig),
    Tcp(TcpConfig),
    Udp(UdpConfig),
    Visa(VisaConfig),
}

/// `e` says a field is still missing after merging the profile.
pub open spec fn missing_after_merge(e: DomainError, field: Seq<char>) -> bool {
    &&& e.category == ErrorCategory::InvalidArgument
    &&& e.code == ErrorCode::MissingRequiredField
    &&& !e.retryable
    &&& e.details@ == seq![("field"@, DetailView::Text(field))]
}

pub open spec fn unwrap_or<T>(o: Option<T>, d: T) -> T {
    match o {
        Some(v) => v,
        None => d,
    }
}

pub open spec fn text_or_empty(o: Option<Seq<char>>) -> Seq<char> {
    match o {
        Some(v) => v,
        None => Seq::empty(),
    }
}

fn text_or_default(o: Option<String>) -> (s: String)
    ensures
        s@ == text_or_empty(opt_string(o)),
{
    match o {
        Some(v) => v,
        None => String::new(),
    }
}

/// Builds the configuration of a debug connect for `transport` from the
/// profile's section merged with the call's: serial ports and VISA
/// addresses are required; other fields fall back to the tool defaults.
pub fn debug_config_for_transport(
    transport: InstanceTypeParam,
    profile: &Option<DebugProfile>,
    params: &DebugConnectParams,
) -> (r: Result<DebugConfig, DomainError>)
    ensures
        match transport {
            InstanceTypeParam::Serial => {
                let call = params.serial;
                let stored = match profile { Some(p) => p.serial, None => None };
                let call_port = match call { Some(o) => o.port, None => None };
                let stored_port = match stored { Some(b) => b.port, None => None };
                match pick_text(call_port, stored_port) {
                    None => r matches Err(e) && missing_after_merge(e, "serial.port"@),
                    Some(port) => r matches Ok(DebugConfig::Serial(c)) && {
                        &&& c.port@ == port
                        &&& c.baudrate == unwrap_or(pick(
                            match call { Some(o) => o.baudrate, None => None },
                            match stored { Some(b) => b.baudrate, None => None },
                        ), 115200u32)
                        &&& c.data_bits == data_bits_of(unwrap_or(pick(
                            match call { Some(o) => o.data_bits, None => None },
                            match stored { Some(b) => b.data_bits, None => None },
                        ), DataBitsParam::Eight))
                        &&& c.stop_bits == stop_bits_of(unwrap_or(pick(
                            match call { Some(o) => o.stop_bits, None => None },
                            match stored { Some(b) => b.stop_bits, None => None },
                        ), StopBitsParam::One))
                        &&& c.parity == parity_of(unwrap_or(pick(
                            match call { Some(o) => o.parity, None => None },
                            match stored { Some(b) => b.parity, None => None },
                        ), ParityParam::Disabled))
                        &&& c.flow_control == flow_control_of(unwrap_or(pick(
                            match call { Some(o) => o.flow_control, None => None },
                            match stored { Some(b) => b.flow_control, None => None },
                        ), FlowControlParam::Disabled))
                        &&& c.timeout_ms == unwrap_or(pick(
                            match call { Some(o) => o.timeout_ms, None => None },
                            match stored { Some(b) => b.timeout_ms, None => None },
                        ), 1000u64)
                        &&& c.encoding == encoding_of(unwrap_or(pick(
                            match call { Some(o) => o.encoding, None => None },
                            match stored { Some(b) => b.encoding, None => None },
                        ), EncodingParam::Text))
                    },
                }
            },
            InstanceTypeParam::Tcp => {
                let call = params.tcp;
                let stored = match profile { Some(p) => p.tcp, None => None };
                let host = pick_text(
                    match call { Some(o) => o.host, None => None },
                    match stored { Some(b) => b.host, None => None },
                );
                let bind_host = pick_text(
                    match call { Some(o) => o.bind_host, None => None },
                    match stored { Some(b) => b.bind_host, None => None },
                );
                let port = pick(
                    match call { Some(o) => o.port, None => None },
                    match stored { Some(b) => b.port, None => None },
                );
                let bind_port = pick(
                    match call { Some(o) => o.bind_port, None => None },
                    match stored { Some(b) => b.bind_port, None => None },
                );
                r matches Ok(DebugConfig::Tcp(c)) && {
                    &&& c.mode == tcp_mode_of(unwrap_or(pick(
                        match call { Some(o) => o.mode, None => None },
                        match stored { Some(b) => b.mode, None => None },
                    ), TcpModeParam::Client))
                    &&& c.host@ == text_or_empty(if host is Some { host } else { bind_host })
                    &&& c.port == unwrap_or(if port is Some { port } else { bind_port }, 0u16)
                    &&& c.timeout_ms == unwrap_or(pick(
                        match call { Some(o) => o.timeout_ms, None => None },
                        match stored { Some(b) => b.timeout_ms, None => None },
                    ), 1000u64)
                }
            },
            InstanceTypeParam::Udp => {
                let call = params.udp;
                let stored = match profile { Some(p) => p.udp, None => None };
                r matches Ok(DebugConfig::Udp(c)) && {
                    &&& c.bind_host@ == text_or_empty(pick_text(
                        match call { Some(o) => o.bind_host, None => None },
                        match stored { Some(b) => b.bind_host, None => None },
                    ))
                    &&& c.bind_port == unwrap_or(pick(
                        match call { Some(o) => o.bind_port, None => None },
                        match stored { Some(b) => b.bind_port, None => None },
                    ), 0u16)
                    &&& opt_string(c.remote_host) == pick_text(
                        match call { Some(o) => o.remote_host, None => None },
                        match stored { Some(b) => b.remote_host, None => None },
                    )
                    &&& c.remote_port == pick(
                        match call { Some(o) => o.remote_port, None => None },
                        match stored { Some(b) => b.remote_port, None => None },
                    )
                    &&& c.timeout_ms == unwrap_or(pick(
                        match call { Some(o) => o.timeout_ms, None => None },
                        match stored { Some(b) => b.timeout_ms, None => None },
                    ), 1000u64)
                }
            },
            InstanceTypeParam::Visa => {
                let call = params.visa;
                let stored = match profile { Some(p) => p.visa, None => None };
                match pick_text(
                    match call { Some(o) => o.resource_address, None => None },
                    match stored { Some(b) => b.resource_address, None => None },
                ) {
                    None => r matches Err(e) && missing_after_merge(e, "visa.resource_address"@),
                    Some(address) => r matches Ok(DebugConfig::Visa(c)) && {
                        &&& c.resource_address@ == address
                        &&& c.open_timeout_ms == unwrap_or(pick(
                            match call { Some(o) => o.open_timeout_ms, None => None },
                            match stored { Some(b) => b.open_timeout_ms, None => None },
                        ), 1000u64)
                        &&& c.io_timeout_ms == unwrap_or(pick(
                            match call { Some(o) => o.io_timeout_ms, None => None },
                            match stored { Some(b) => b.io_timeout_ms, None => None },
                        ), 1000u64)
                        &&& opt_string(c.read_termination) == pick_text(
                            match call { Some(o) => o.read_termination, None => None },
                            match stored { Some(b) => b.read_termination, None => None },
                        )
                        &&& opt_string(c.write_termination) == pick_text(
                            match call { Some(o) => o.write_termination, None => None },
                            match stored { Some(b) => b.write_termination, None => None },
                        )
                        &&& c.encoding == encoding_of(unwrap_or(pick(
                            match call { Some(o) => o.encoding, None => None },
                            match stored { Some(b) => b.encoding, None => None },
                        ), EncodingParam::Text))
                        &&& c.query_idn_on_connect == unwrap_or(pick(
                            match call { Some(o) => o.query_idn_on_connect, None => None },
                            match stored { Some(b) => b.query_idn_on_connect, None => None },
                        ), false)
                    },
                }
            },
        },
{
    match transport {
        InstanceTypeParam::Serial => {
            let stored = match profile {
                Some(p) => p.serial.as_ref(),
                None => None,
            };
            let merged = merge_serial_profile(stored, params.serial.as_ref());
            let port = match merged.port {
                Some(p) => p,
                None => {
                    let e = DomainError::invalid_argument(
                        ErrorCode::MissingRequiredField,
                        "debug_connect Serial requires serial.port after merging debug profile defaults.",
                        "Pass serial.port or set it with debug_profile_set.",
                    ).with_detail("field", DetailValue::Text("serial.port".to_owned()));
                    assert(e.details@ =~= seq![("field"@, DetailView::Text("serial.port"@))]);
                    return Err(e);
                },
            };
            let baudrate = match merged.baudrate {
                Some(b) => b,
                None => default_baudrate(),
            };
            let data_bits = match merged.data_bits {
                Some(d) => d,
                None => default_data_bits(),
            };
            let stop_bits = match merged.stop_bits {
                Some(s) => s,
                None => default_stop_bits(),
            };
            let parity = match merged.parity {
                Some(p) => p,
                None => ParityParam::Disabled,
            };
            let flow_control = match merged.flow_control {
                Some(f) => f,
                None => FlowControlParam::Disabled,
            };
            let timeout_ms = match merged.timeout_ms {
                Some(t) => t,
                None => default_timeout_ms(),
            };
            let encoding = match merged.encoding {
                Some(e) => e,
                None => EncodingParam::Text,
            };
            Ok(
                DebugConfig::Serial(
                    SerialConfig {
                        port,
                        baudrate,
                        data_bits: map_data_bits(data_bits),
                        stop_bits: map_stop_bits(stop_bits),
                        parity: map_parity(parity),
                        flow_control: map_flow_control(flow_control),
                        timeout_ms,
                        encoding: map_encoding(encoding),
                    },
                ),
            )
        },
        InstanceTypeParam::Tcp => {
            let stored = match profile {
                Some(p) => p.tcp.as_ref(),
                None => None,
            };
            let merged = merge_tcp_profile(stored, params.tcp.as_ref());
            let mode = match merged.mode {
                Some(m) => m,
                None => TcpModeParam::Client,
            };
            let host = if merged.host.is_some() {
                text_or_default(merged.host)
            } else {
                text_or_default(merged.bind_host)
            };
            let port = match merged.port {
                Some(p) => p,
                None => match merged.bind_port {
                    Some(p) => p,
                    None => 0,
                },
            };
            let timeout_ms = match merged.timeout_ms {
                Some(t) => t,
                None => default_timeout_ms(),
            };
            Ok(DebugConfig::Tcp(TcpConfig { mode: map_tcp_mode(mode), host, port, timeout_ms }))
        },
        InstanceTypeParam::Udp => {
            let stored = match profile {
                Some(p) => p.udp.as_ref(),
                None => None,
            };
            let merged = merge_udp_profile(stored, params.udp.as_ref());
            let bind_port = match merged.bind_port {
                Some(p) => p,
                None => 0,
            };
            let timeout_ms = match merged.timeout_ms {
                Some(t) => t,
                None => default_timeout_ms(),
            };
            Ok(
                DebugConfig::Udp(
                    UdpConfig {
                        bind_host: text_or_default(merged.bind_host),
                        bind_port,
                        remote_host: merged.remote_host,
                        remote_port: merged.remote_port,
                        timeout_ms,
                    },
                ),
            )
        },
        InstanceTypeParam::Visa => {
            let stored = match profile {
                Some(p) => p.visa.as_ref(),
                None => None,
            };
            let merged = merge_visa_profile(stored, params.visa.as_ref());
            let resource_address = match merged.resource_address {
                Some(a) => a,
                None => {
                    let e = DomainError::invalid_argument(
                        ErrorCode::MissingRequiredField,
                        "debug_connect Visa requires visa.resource_address after merging debug profile defaults.",
                        "Pass visa.resource_address or set it with debug_profile_set.",
                    ).with_detail("field", DetailValue::Text("visa.resource_address".to_owned()));
                    assert(e.details@ =~= seq![("field"@, DetailView::Text("visa.resource_address"@))]);
                    return Err(e);
                },
            };
            let open_timeout_ms = match merged.open_timeout_ms {
                Some(t) => t,
                None => default_timeout_ms(),
            };
            let io_timeout_ms = match merged.io_timeout_ms {
                Some(t) => t,
                None => default_timeout_ms(),
            };
            let encoding = match merged.encoding {
                Some(e) => e,
                None => EncodingParam::Text,
            };
            let query_idn_on_connect = match merged.query_idn_on_connect {
                Some(q) => q,
                None => false,
            };
            Ok(
                DebugConfig::Visa(
                    VisaConfig {
                        resource_address,
                        open_timeout_ms,
                        io_timeout_ms,
                        read_termination: merged.read_termination,
                        write_termination: merged.write_termination,
                        encoding: map_encoding(encoding),
                        query_idn_on_connect,
                    },
                ),
            )
        },
    }
}

/// The defaults a debug exchange uses, once a handle is known.
#[derive(Debug, Clone)]
pub struct ExchangeSettings {
    pub handle_id: String,
    pub used_profile_handle: bool,
    pub encoding: EncodingParam,
    pub append_line_break: bool,
    pub max_bytes: Option<usize>,
    pub peer_id: Option<String>,
}

/// Resolves what a debug exchange uses: the call's handle, else the
/// profile's bound handle (required); each payload and pull setting from
/// the call, else from the profile, else the tool default.
pub fn resolve_exchange_settings(params: &DebugExchangeParams, profile: &Option<DebugProfile>) -> (r: Result<
    ExchangeSettings,
    DomainError,
>)
    ensures
        ({
            let bound = match profile { Some(p) => p.bound_handle_id, None => None };
            let payload = match profile { Some(p) => p.payload, None => None };
            let pull = match profile { Some(p) => p.pull, None => None };
            match pick_text(params.handle_id, bound) {
                None => r matches Err(e) && missing_after_merge(e, "handle_id"@),
                Some(h) => r matches Ok(s) && {
                    &&& s.handle_id@ == h
                    &&& s.used_profile_handle == params.handle_id is None
                    &&& s.encoding == unwrap_or(pick(
                        params.encoding,
                        match payload { Some(d) => d.encoding, None => None },
                    ), EncodingParam::Text)
                    &&& s.append_line_break == unwrap_or(pick(
                        params.append_line_break,
                        match payload { Some(d) => d.append_line_break, None => None },
                    ), false)
                    &&& s.max_bytes == pick(
                        params.max_bytes,
                        match pull { Some(d) => d.max_bytes, None => None },
                    )
                    &&& opt_string(s.peer_id) == pick_text(
                        params.peer_id,
                        match pull { Some(d) => d.peer_id, None => None },
                    )
                },
            }
        }),
{
    let none: Option<String> = None;
    let (bound, payload, pull) = match profile {
        Some(p) => (&p.bound_handle_id, &p.payload, &p.pull),
        None => (&none, &None, &None),
    };
    let handle = match pick_string(&params.handle_id, bound) {
        Some(h) => h,
        None => {
            let e = DomainError::invalid_argument(
                ErrorCode::MissingRequiredField,
                "debug_exchange requires handle_id or a valid profile-bound handle.",
                "Pass handle_id, call debug_connect, or bind a handle with debug_profile_set.",
            ).with_detail("field", DetailValue::Text("handle_id".to_owned()));
            assert(e.details@ =~= seq![("field"@, DetailView::Text("handle_id"@))]);
            return Err(e);
        },
    };
    let (stored_encoding, stored_line_break) = match payload {
        Some(d) => (d.encoding, d.append_line_break),
        None => (None, None),
    };
    let (stored_max, stored_peer) = match pull {
        Some(d) => (d.max_bytes, &d.peer_id),
        None => (None, &none),
    };
    let encoding = match pick_copy(params.encoding, stored_encoding) {
        Some(e) => e,
        None => EncodingParam::Text,
    };
    let append_line_break = match pick_copy(params.append_line_break, stored_line_break) {
        Some(b) => b,
        None => false,
    };
    Ok(
        ExchangeSettings {
            handle_id: handle,
            used_profile_handle: params.handle_id.is_none(),
            encoding,
            append_line_break,
            max_bytes: pick_copy(params.max_bytes, stored_max),
            peer_id: pick_string(&params.peer_id, stored_peer),
        },
    )
}

/// The payload and pull defaults a profile implies.
#[derive(Debug, Clone)]
pub struct DerivedDefaults {
    pub transport: Option<InstanceTypeParam>,
    pub encoding: EncodingParam,
    pub append_line_break: bool,
    pub max_bytes: usize,
    pub peer_id: Option<String>,
}

/// The payload encoding (text), line break (off) and pull size (4096) a
/// profile implies when it sets none.
pub fn debug_derived_defaults(profile: &DebugProfile) -> (d: DerivedDefaults)
    ensures
        d.transport == profile.transport,
        d.encoding == unwrap_or(
            match profile.payload { Some(p) => p.encoding, None => None },
            EncodingParam::Text,
        ),
        d.append_line_break == unwrap_or(
            match profile.payload { Some(p) => p.append_line_break, None => None },
            false,
        ),
        d.max_bytes == unwrap_or(
            match profile.pull { Some(p) => p.max_bytes, None => None },
            4096usize,
        ),
        opt_string(d.peer_id) == opt_string(match profile.pull { Some(p) => p.peer_id, None => None }),
{
    let (encoding, append_line_break) = match &profile.payload {
        Some(p) => (
            match p.encoding {
                Some(e) => e,
                None => EncodingParam::Text,
            },
            match p.append_line_break {
                Some(b) => b,
                None => false,
            },
        ),
        None => (EncodingParam::Text, false),
    };
    let (max_bytes, peer_id) = match &profile.pull {
        Some(p) => (
            match p.max_bytes {
                Some(m) => m,
                None => 4096,
            },
            copy_text(&p.peer_id),
        ),
        None => (4096, None),
    };
    DerivedDefaults { transport: profile.transport, encoding, append_line_break, max_bytes, peer_id }
}


/// Whether a debug exchange pulls once more after its first pull, and with
/// which size limit: only on Serial, after a first pull that returned bytes
/// and was not cut short, and while the caller's limit has room left
/// (`Some(None)`: again without a limit).
pub open spec fn follow_up_pull(
    instance_type: InstanceType,
    got: nat,
    truncated: bool,
    max_bytes: Option<usize>,
) -> Option<Option<usize>> {
    if instance_type != InstanceType::Serial || got == 0 || truncated {
        None
    } else {
        match max_bytes {
            Some(limit) => if limit <= got {
                None
            } else {
                Some(Some((limit - got) as usize))
            },
            None => Some(None),
        }
    }
}

/// Decides the second pull of a debug exchange from the first one.
pub fn exchange_follow_up(instance_type: InstanceType, first: &PullResult, max_bytes: Option<usize>) -> (r:
    Option<Option<usize>>)
    ensures
        r == follow_up_pull(instance_type, first.bytes@.len(), first.truncated, max_bytes),
{
    let got = first.bytes.len();
    let serial = match instance_type {
        InstanceType::Serial => true,
        _ => false,
    };
    if !serial || got == 0 || first.truncated {
        return None;
    }
    match max_bytes {
        Some(limit) => if limit <= got {
            None
        } else {
            Some(Some(limit - got))
        },
        None => Some(None),
    }
}

/// Joins the second pull of a debug exchange to the first: its bytes follow
/// the first ones and its buffer state wins (two attempts); a read timeout
/// keeps the first pull and marks the exchange as completed after the
/// timeout; any other failure is the exchange's failure.
pub fn merge_exchange_pull(first: PullResult, next: Result<PullResult, DomainError>) -> (r: Result<
    (PullResult, usize, bool),
    DomainError,
>)
    requires
        match next {
            Ok(n) => first.bytes@.len() + n.bytes@.len() <= usize::MAX,
            Err(_) => true,
        },
    ensures
        match next {
            Ok(n) => r matches Ok((p, attempts, late)) && {
                &&& p.bytes@ == first.bytes@ + n.bytes@
                &&& p.truncated == n.truncated
                &&& p.remaining_rx_buffer_bytes == n.remaining_rx_buffer_bytes
                &&& p.source == first.source
                &&& attempts == 2
                &&& !late
            },
            Err(e) => if e.code == ErrorCode::ReadTimeout {
                r == Ok::<(PullResult, usize, bool), DomainError>((first, 2usize, true))
            } else {
                r == Err::<(PullResult, usize, bool), DomainError>(e)
            },
        },
{
    match next {
        Ok(n) => {
            let mut result = first;
            let mut more = n.bytes;
            result.bytes.append(&mut more);
            result.truncated = n.truncated;
            result.remaining_rx_buffer_bytes = n.remaining_rx_buffer_bytes;
            Ok((result, 2, false))
        },
        Err(e) => {
            let timed_out = match e.code {
                ErrorCode::ReadTimeout => true,
                _ => false,
            };
            if timed_out {
                Ok((first, 2, true))
            } else {
                Err(e)
            }
        },
    }
}

/// The transport of a debug connect: the call's, else the profile's; one
/// of them is required.
pub fn resolve_debug_transport(call: Option<InstanceTypeParam>, profile: &Option<DebugProfile>) -> (r: Result<
    InstanceTypeParam,
    DomainError,
>)
    ensures
        match pick(call, match profile { Some(p) => p.transport, None => None }) {
            Some(t) => r == Ok::<InstanceTypeParam, DomainError>(t),
            None => r matches Err(e) && missing_after_merge(e, "transport"@),
        },
{
    let stored = match profile {
        Some(p) => p.transport,
        None => None,
    };
    match pick_copy(call, stored) {
        Some(t) => Ok(t),
        None => {
            let e = DomainError::invalid_argument(
                ErrorCode::MissingRequiredField,
                "debug_connect requires a transport after merging debug profile defaults.",
                "Pass transport or call debug_profile_set with a transport.",
            ).with_detail("field", DetailValue::Text("transport".to_owned()));
            assert(e.details@ =~= seq![("field"@, DetailView::Text("transport"@))]);
            Err(e)
        },
    }
}

/// The handle a debug close acts on: the call's, else the profile's bound
/// handle; one of them is required.
pub fn resolve_close_handle(call: &Option<String>, profile: &Option<DebugProfile>) -> (r: Result<
    String,
    DomainError,
>)
    ensures
        match pick_text(*call, match profile { Some(p) => p.bound_handle_id, None => None }) {
            Some(h) => r matches Ok(s) && s@ == h,
            None => r matches Err(e) && missing_after_merge(e, "handle_id"@),
        },
{
    let none: Option<String> = None;
    let bound = match profile {
        Some(p) => &p.bound_handle_id,
        None => &none,
    };
    match pick_string(call, bound) {
        Some(h) => Ok(h),
        None => {
            let e = DomainError::invalid_argument(
                ErrorCode::MissingRequiredField,
                "debug_close requires handle_id or a profile-bound handle.",
                "Pass handle_id or call debug_profile_get to inspect the current debug profile.",
            ).with_detail("field", DetailValue::Text("handle_id".to_owned()));
            assert(e.details@ =~= seq![("field"@, DetailView::Text("handle_id"@))]);
            Err(e)
        },
    }
}

/// A debug exchange runs only on a Connected instance and never connects
/// one: on any other state it fails, naming the state it found.
pub fn exchange_preflight(instance_type: InstanceType, state: InstanceState) -> (r: Result<
    InstanceType,
    DomainError,
>)
    ensures
        state == InstanceState::Connected ==> r == Ok::<InstanceType, DomainError>(instance_type),
        state != InstanceState::Connected ==> (r matches Err(e) && {
            &&& e.category == ErrorCategory::InvalidState
            &&& e.code == ErrorCode::StateNotAllowed
            &&& !e.retryable
            &&& e.details@ == seq![("current_state"@, DetailView::Text(state_name(state)))]
        }),
{
    match state {
        InstanceState::Connected => Ok(instance_type),
        _ => {
            let e = DomainError::new(
                ErrorCategory::InvalidState,
                ErrorCode::StateNotAllowed,
                "debug_exchange requires a Connected instance.",
                "Call port_connect or debug_connect first; debug_exchange never connects implicitly.",
                false,
            ).with_detail("current_state", DetailValue::Text(state.name().to_owned()));
            assert(e.details@ =~= seq![("current_state"@, DetailView::Text(state_name(state)))]);
            Err(e)
        },
    }
}

} // verus!
