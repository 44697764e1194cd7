//! What the tools decide from their arguments before touching an instance:
//! configurations, payloads, helper requests and scan arguments.
use vstd::prelude::*;

use crate::mcp::params::{
    data_bits_of, encoding_of, flow_control_of, map_data_bits, map_encoding, map_flow_control,
    map_modbus_mode, map_parity, map_stop_bits, map_tcp_mode, parity_of, stop_bits_of,
    tcp_mode_of, EncodingParam, ModbusHelperParams, ModbusModeParam, PortScanConfigParams,
    SerialConfigParams, TcpUdpConfigParams, VisaConfigParams,
};
use crate::mcp::debug::{pick_text, text_or_empty, unwrap_or};
use crate::model::config::{SerialConfig, TcpConfig, UdpConfig, VisaConfig};
use crate::model::data::Payload;
use crate::model::error::{DetailValue, DetailView, DomainError, ErrorCategory, ErrorCode};
use crate::model::limits::{range_error, range_exceeded, RuntimeLimits};
use crate::model::state::InstanceType;
use crate::runtime::queues::SendTargetMode;
use crate::util::encoding::{hex_outcome, hex_to_bytes_with_limit, text_outcome, text_to_bytes_with_limit, vec_result_view};
use crate::util::modbus::{ModbusMode, ModbusPackRequest, ModbusUnpackRequest};
use crate::util::text::{concat};

verus! {

/// The configuration a serial config call applies.
pub fn serial_config_from_params(params: SerialConfigParams) -> (c: SerialConfig)
    ensures
        c.port@ == params.port@,
        c.baudrate == params.baudrate,
        c.data_bits == data_bits_of(params.data_bits),
        c.stop_bits == stop_bits_of(params.stop_bits),
        c.parity == parity_of(params.parity),
        c.flow_control == flow_control_of(params.flow_control),
        c.timeout_ms == params.timeout_ms,
        c.encoding == encoding_of(params.encoding),
{
    SerialConfig {
        port: params.port,
        baudrate: params.baudrate,
        data_bits: map_data_bits(params.data_bits),
        stop_bits: map_stop_bits(params.stop_bits),
        parity: map_parity(params.parity),
        flow_control: map_flow_control(params.flow_control),
        timeout_ms: params.timeout_ms,
        encoding: map_encoding(params.encoding),
    }
}

/// The configuration a VISA config call applies.
pub fn visa_config_from_params(params: VisaConfigParams) -> (c: VisaConfig)
    ensures
        c.resource_address@ == params.resource_address@,
        c.open_timeout_ms == params.open_timeout_ms,
        c.io_timeout_ms == params.io_timeout_ms,
        c.read_termination == params.read_termination,
        c.write_termination == params.write_termination,
        c.encoding == encoding_of(params.encoding),
        c.query_idn_on_connect == params.query_idn_on_connect,
{
    VisaConfig {
        resource_address: params.resource_address,
        open_timeout_ms: params.open_timeout_ms,
        io_timeout_ms: params.io_timeout_ms,
        read_termination: params.read_termination,
        write_termination: params.write_termination,
        encoding: map_encoding(params.encoding),
        query_idn_on_connect: params.query_idn_on_connect,
    }
}

/// The configuration a TCP/UDP config call applies to an instance of a type.
#[derive(Debug, Clone)]
pub enum NetworkConfig {
    Tcp(TcpConfig),
    Udp(UdpConfig),
}

fn first_text(a: Option<String>, b: Option<String>) -> (s: String)
    ensures
        s@ == text_or_empty(pick_text(a, b)),
{
    match a {
        Some(v) => v,
        None => match b {
            Some(v) => v,
            None => String::new(),
        },
    }
}

/// TCP takes `host`/`port`, falling back to `bind_host`/`bind_port`; UDP
/// takes `bind_host`/`bind_port`, falling back to `host`/`port`; absent
/// values are empty or zero. Serial and VISA instances are refused.
pub fn network_config_for(params: TcpUdpConfigParams, instance_type: InstanceType) -> (r: Result<
    NetworkConfig,
    DomainError,
>)
    ensures
        match instance_type {
            InstanceType::Tcp => r matches Ok(NetworkConfig::Tcp(c)) && {
                &&& c.mode == tcp_mode_of(params.mode)
                &&& c.host@ == text_or_empty(pick_text(params.host, params.bind_host))
                &&& c.port == unwrap_or(if params.port is Some { params.port } else { params.bind_port }, 0u16)
                &&& c.timeout_ms == params.timeout_ms
            },
            InstanceType::Udp => r matches Ok(NetworkConfig::Udp(c)) && {
                &&& c.bind_host@ == text_or_empty(pick_text(params.bind_host, params.host))
                &&& c.bind_port == unwrap_or(if params.bind_port is Some { params.bind_port } else { params.port }, 0u16)
                &&& c.remote_host == params.remote_host
                &&& c.remote_port == params.remote_port
                &&& c.timeout_ms == params.timeout_ms
            },
            _ => r matches Err(e) && e.category == ErrorCategory::InvalidArgument && e.code
                == ErrorCode::TypeMismatch && !e.retryable,
        },
{
    match instance_type {
        InstanceType::Tcp => {
            let port = match params.port {
                Some(p) => p,
                None => match params.bind_port {
                    Some(p) => p,
                    None => 0,
                },
            };
            Ok(
                NetworkConfig::Tcp(
                    TcpConfig {
                        mode: map_tcp_mode(params.mode),
                        host: first_text(params.host, params.bind_host),
                        port,
                        timeout_ms: params.timeout_ms,
                    },
                ),
            )
        },
        InstanceType::Udp => {
            let bind_port = match params.bind_port {
                Some(p) => p,
                None => match params.port {
                    Some(p) => p,
                    None => 0,
                },
            };
            Ok(
                NetworkConfig::Udp(
                    UdpConfig {
                        bind_host: first_text(params.bind_host, params.host),
                        bind_port,
                        remote_host: params.remote_host,
                        remote_port: params.remote_port,
                        timeout_ms: params.timeout_ms,
                    },
                ),
            )
        },
        InstanceType::Serial => Err(
            DomainError::invalid_argument(
                ErrorCode::TypeMismatch,
                "tcp_udp_config cannot configure a Serial instance.",
                "Use serial_config for Serial instances.",
            ),
        ),
        InstanceType::Visa => Err(
            DomainError::invalid_argument(
                ErrorCode::TypeMismatch,
                "tcp_udp_config cannot configure a Visa instance.",
                "Use visa_config for Visa instances.",
            ),
        ),
    }
}

/// The bytes a send call puts on the wire: text or hex of at most
/// `tx_limit` input bytes, with a line feed when asked for.
pub fn payload_with_limit(data: &str, encoding: EncodingParam, append_line_break: bool, tx_limit: usize) -> (r:
    Result<Payload, DomainError>)
    ensures
        match encoding {
            EncodingParam::Text => exists|d: Result<Seq<u8>, DomainError>|
                #[trigger] text_outcome(vstd::utf8::encode_utf8(data@), "data"@, tx_limit as int, d)
                    && crate::model::data::payload_outcome(
                    d,
                    crate::model::config::PayloadEncoding::Text,
                    append_line_break,
                    r,
                ),
            EncodingParam::Hex => exists|d: Result<Seq<u8>, DomainError>|
                #[trigger] hex_outcome(vstd::utf8::encode_utf8(data@), "data"@, tx_limit as int, d)
                    && crate::model::data::payload_outcome(
                    d,
                    crate::model::config::PayloadEncoding::Hex,
                    append_line_break,
                    r,
                ),
        },
{
    match encoding {
        EncodingParam::Text => {
            let decoded = text_to_bytes_with_limit(data, "data", tx_limit);
            let ghost d = vec_result_view(decoded);
            match decoded {
                Ok(mut bytes) => {
                    if append_line_break {
                        bytes.push(10u8);
                    }
                    let r = Ok(Payload { bytes, encoding: crate::model::config::PayloadEncoding::Text });
                    assert(crate::model::data::payload_outcome(
                        d,
                        crate::model::config::PayloadEncoding::Text,
                        append_line_break,
                        r,
                    ));
                    r
                },
                Err(e) => Err(e),
            }
        },
        EncodingParam::Hex => {
            let decoded = hex_to_bytes_with_limit(data, "data", tx_limit);
            let ghost d = vec_result_view(decoded);
            match decoded {
                Ok(mut bytes) => {
                    if append_line_break {
                        bytes.push(10u8);
                    }
                    let r = Ok(Payload { bytes, encoding: crate::model::config::PayloadEncoding::Hex });
                    assert(crate::model::data::payload_outcome(
                        d,
                        crate::model::config::PayloadEncoding::Hex,
                        append_line_break,
                        r,
                    ));
                    r
                },
                Err(e) => Err(e),
            }
        },
    }
}

/// `e` says `field` is required.
pub open spec fn required_error(e: DomainError, field: Seq<char>) -> bool {
    &&& e.category == ErrorCategory::InvalidArgument
    &&& e.code == ErrorCode::MissingRequiredField
    &&& !e.retryable
    &&& e.details@ == seq![("field"@, DetailView::Text(field))]
}

fn required_error_for(field: &str) -> (e: DomainError)
    ensures
        required_error(e, field@),
        e.message@ == "Missing required field `"@ + field@ + "`."@,
{
    let mut message = concat("Missing required field `", field);
    message.append("`.");
    let mut hint = concat("Provide `", field);
    hint.append("` and retry.");
    let e = DomainError::invalid_argument(ErrorCode::MissingRequiredField, message.as_str(), hint.as_str())
        .with_detail("field", DetailValue::Text(field.to_owned()));
    assert(e.details@ =~= seq![("field"@, DetailView::Text(field@))]);
    e
}

pub fn required_modbus_u8(field: &str, value: Option<u8>) -> (r: Result<u8, DomainError>)
    ensures
        match value {
            Some(v) => r == Ok::<u8, DomainError>(v),
            None => r matches Err(e) && required_error(e, field@),
        },
{
    match value {
        Some(v) => Ok(v),
        None => Err(required_error_for(field)),
    }
}

pub fn required_modbus_u16(field: &str, value: Option<u16>) -> (r: Result<u16, DomainError>)
    ensures
        match value {
            Some(v) => r == Ok::<u16, DomainError>(v),
            None => r matches Err(e) && required_error(e, field@),
        },
{
    match value {
        Some(v) => Ok(v),
        None => Err(required_error_for(field)),
    }
}

pub fn required_modbus_string(field: &str, value: Option<String>) -> (r: Result<String, DomainError>)
    ensures
        match value {
            Some(v) => r matches Ok(s) && s@ == v@,
            None => r matches Err(e) && required_error(e, field@),
        },
{
    match value {
        Some(v) => Ok(v),
        None => Err(required_error_for(field)),
    }
}

pub open spec fn modbus_mode_of(m: ModbusModeParam) -> ModbusMode {
    match m {
        ModbusModeParam::Rtu => ModbusMode::Rtu,
        ModbusModeParam::Ascii => ModbusMode::Ascii,
    }
}

/// The Modbus mode a caller writes is the mode the helper is asked for.
pub proof fn modbus_mode_applied_as_written()
    ensures
        modbus_mode_of(ModbusModeParam::Rtu) == ModbusMode::Rtu,
        modbus_mode_of(ModbusModeParam::Ascii) == ModbusMode::Ascii,
{
}

/// The pack request of a Modbus helper call: slave id, function code and
/// address are required, in that order.
pub fn modbus_pack_request(params: ModbusHelperParams) -> (r: Result<ModbusPackRequest, DomainError>)
    ensures
        if params.slave_id is None {
            r matches Err(e) && required_error(e, "slave_id"@)
        } else if params.function_code is None {
            r matches Err(e) && required_error(e, "function_code"@)
        } else if params.address is None {
            r matches Err(e) && required_error(e, "address"@)
        } else {
            r matches Ok(q) && {
                &&& q.mode == modbus_mode_of(params.mode)
                &&& q.slave_id == params.slave_id.unwrap()
                &&& q.function_code == params.function_code.unwrap()
                &&& q.address == params.address.unwrap()
                &&& q.data_or_hex == params.data_or_hex
                &&& q.crc_check == params.crc_check
            }
        },
{
    let slave_id = match required_modbus_u8("slave_id", params.slave_id) {
        Ok(v) => v,
        Err(e) => return Err(e),
    };
    let function_code = match required_modbus_u8("function_code", params.function_code) {
        Ok(v) => v,
        Err(e) => return Err(e),
    };
    let address = match required_modbus_u16("address", params.address) {
        Ok(v) => v,
        Err(e) => return Err(e),
    };
    Ok(
        ModbusPackRequest {
            mode: map_modbus_mode(params.mode),
            slave_id,
            function_code,
            address,
            data_or_hex: params.data_or_hex,
            crc_check: params.crc_check,
        },
    )
}

/// The unpack request of a Modbus helper call: the frame is required.
pub fn modbus_unpack_request(params: ModbusHelperParams) -> (r: Result<ModbusUnpackRequest, DomainError>)
    ensures
        match params.frame_hex {
            None => r matches Err(e) && required_error(e, "frame_hex"@),
            Some(f) => r matches Ok(q) && q.mode == modbus_mode_of(params.mode) && q.frame_hex@ == f@
                && q.crc_check == params.crc_check,
        },
{
    let frame_hex = match required_modbus_string("frame_hex", params.frame_hex) {
        Ok(v) => v,
        Err(e) => return Err(e),
    };
    Ok(ModbusUnpackRequest { mode: map_modbus_mode(params.mode), frame_hex, crc_check: params.crc_check })
}

/// The error for a network scan field that is missing.
pub fn missing_scan_config_field(field: &str) -> (e: DomainError)
    ensures
        required_error(e, field@),
        e.message@ == "port_scan config."@ + field@ + " is required for network scans."@,
{
    let mut message = concat("port_scan config.", field);
    message.append(" is required for network scans.");
    let e = DomainError::invalid_argument(
        ErrorCode::MissingRequiredField,
        message.as_str(),
        "Pass host, start_port, and end_port inside config for TCP or UDP scans.",
    ).with_detail("field", DetailValue::Text(field.to_owned()));
    assert(e.details@ =~= seq![("field"@, DetailView::Text(field@))]);
    e
}

/// The arguments of a loopback network scan.
#[derive(Debug, Clone)]
pub struct NetworkScanArgs {
    pub host: String,
    pub start_port: u16,
    pub end_port: u16,
    pub max_concurrency: usize,
    pub timeout_ms: u64,
}

/// Checks a network scan: the timeout must lie within the scan budget, and
/// host, start and end port are required, in that order.
pub fn network_scan_args(config: PortScanConfigParams, limits: &RuntimeLimits) -> (r: Result<
    NetworkScanArgs,
    DomainError,
>)
    ensures
        if !(1 <= config.timeout_ms <= limits.scan_total_timeout_ms) {
            r matches Err(e) && range_error(
                e,
                "timeout_ms"@,
                1,
                limits.scan_total_timeout_ms as int,
                config.timeout_ms as int,
            )
        } else if config.host is None {
            r matches Err(e) && required_error(e, "host"@)
        } else if config.start_port is None {
            r matches Err(e) && required_error(e, "start_port"@)
        } else if config.end_port is None {
            r matches Err(e) && required_error(e, "end_port"@)
        } else {
            r matches Ok(a) && {
                &&& a.host@ == config.host.unwrap()@
                &&& a.start_port == config.start_port.unwrap()
                &&& a.end_port == config.end_port.unwrap()
                &&& a.max_concurrency == config.max_concurrency
                &&& a.timeout_ms == config.timeout_ms
            }
        },
{
    if config.timeout_ms == 0 || config.timeout_ms > limits.scan_total_timeout_ms {
        return Err(
            range_exceeded(
                "port_scan timeout_ms is outside the allowed range.",
                "Use a timeout between 1 and the configured scan_total_timeout_ms.",
                "timeout_ms",
                1,
                limits.scan_total_timeout_ms,
                config.timeout_ms,
            ),
        );
    }
    let host = match config.host {
        Some(h) => h,
        None => return Err(missing_scan_config_field("host")),
    };
    let start_port = match config.start_port {
        Some(p) => p,
        None => return Err(missing_scan_config_field("start_port")),
    };
    let end_port = match config.end_port {
        Some(p) => p,
        None => return Err(missing_scan_config_field("end_port")),
    };
    Ok(
        NetworkScanArgs {
            host,
            start_port,
            end_port,
            max_concurrency: config.max_concurrency,
            timeout_ms: config.timeout_ms,
        },
    )
}

/// The filter of a VISA scan: the given one, else every instrument.
pub fn visa_scan_filter(config: &PortScanConfigParams) -> (s: String)
    ensures
        s@ == match config.resource_filter {
            Some(f) => f@,
            None => "?*INSTR"@,
        },
{
    match &config.resource_filter {
        Some(f) => f.clone(),
        None => "?*INSTR".to_owned(),
    }
}

/// The lower-case name of a send target mode.
pub fn send_target_mode_name(mode: SendTargetMode) -> (s: &'static str)
    ensures
        s@ == match mode {
            SendTargetMode::Peer => "peer"@,
            SendTargetMode::Broadcast => "broadcast"@,
        },
{
    proof {
        reveal_strlit("peer");
        reveal_strlit("broadcast");
    }
    match mode {
        SendTargetMode::Peer => "peer",
        SendTargetMode::Broadcast => "broadcast",
    }
}

/// The most raw I/O bytes a log line may preview.
pub const PORT_IO_LOG_MAX_BYTES: usize = 65536;

/// Checks the raw I/O preview size of the logs: 0 (off) up to 65536 bytes.
pub fn validate_port_io_log_bytes(value: usize) -> (r: Result<usize, DomainError>)
    ensures
        value <= 65536 ==> r == Ok::<usize, DomainError>(value),
        value > 65536 ==> (r matches Err(e) && {
            &&& e.category == ErrorCategory::InvalidArgument
            &&& e.code == ErrorCode::InvalidRange
            &&& !e.retryable
            &&& e.details@ == seq![
                ("field"@, DetailView::Text("port_io_log_bytes"@)),
                ("max"@, DetailView::Number(65536)),
                ("actual"@, DetailView::Number(value as int)),
            ]
        }),
{
    if value <= PORT_IO_LOG_MAX_BYTES {
        return Ok(value);
    }
    let e = DomainError::invalid_argument(
        ErrorCode::InvalidRange,
        "debug_log_config port_io_log_bytes is outside the allowed range.",
        "Use a value between 0 and 65536 bytes.",
    ).with_detail("field", DetailValue::Text("port_io_log_bytes".to_owned())).with_detail(
        "max",
        DetailValue::Number(65536),
    ).with_detail("actual", DetailValue::Number(value as u64));
    assert(e.details@ =~= seq![
        ("field"@, DetailView::Text("port_io_log_bytes"@)),
        ("max"@, DetailView::Number(65536)),
        ("actual"@, DetailView::Number(value as int)),
    ]);
    Err(e)
}

} // verus!
