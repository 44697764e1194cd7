//! The arguments of the tools, as plain values, and their defaults.
use vstd::prelude::*;

use crate::model::config::{DataBits, FlowControl, Parity, PayloadEncoding, StopBits, TcpMode};
use crate::model::state::InstanceType;
use crate::runtime::buffers::ClearTarget;
use crate::util::modbus::ModbusMode;

verus! {

#[derive(Debug, Clone, Copy, PartialEq, Eq, Structural)]
pub enum InstanceTypeParam {
    Serial,
    Tcp,
    Udp,
    Visa,
}

pub open spec fn instance_type_of(p: InstanceTypeParam) -> InstanceType {
    match p {
        InstanceTypeParam::Serial => InstanceType::Serial,
        InstanceTypeParam::Tcp => InstanceType::Tcp,
        InstanceTypeParam::Udp => InstanceType::Udp,
        InstanceTypeParam::Visa => InstanceType::Visa,
    }
}

impl From<InstanceTypeParam> for InstanceType {
    fn from(value: InstanceTypeParam) -> (t: InstanceType) {
        match value {
            InstanceTypeParam::Serial => InstanceType::Serial,
            InstanceTypeParam::Tcp => InstanceType::Tcp,
            InstanceTypeParam::Udp => InstanceType::Udp,
            InstanceTypeParam::Visa => InstanceType::Visa,
        }
    }
}

impl vstd::std_specs::convert::FromSpecImpl<InstanceTypeParam> for InstanceType {
    open spec fn obeys_from_spec() -> bool {
        true
    }

    open spec fn from_spec(v: InstanceTypeParam) -> InstanceType {
        instance_type_of(v)
    }
}

#[derive(Debug, Clone, Copy, PartialEq, Eq, Structural)]
pub enum TcpModeParam {
    Client,
    Listen,
}

impl Default for TcpModeParam {
    fn default() -> (m: Self)
        ensures
            m == TcpModeParam::Client,
    {
        TcpModeParam::Client
    }
}

#[derive(Debug, Clone, Copy, PartialEq, Eq, Structural)]
pub enum ClearTargetParam {
    Tx,
    Rx,
    All,
}

impl Default for ClearTargetParam {
    fn default() -> (t: Self)
        ensures
            t == ClearTargetParam::All,
    {
        ClearTargetParam::All
    }
}

#[derive(Debug, Clone, Copy, PartialEq, Eq, Structural)]
pub enum EncodingParam {
    Text,
    Hex,
}

impl Default for EncodingParam {
    fn default() -> (e: Self)
        ensures
            e == EncodingParam::Text,
    {
        EncodingParam::Text
    }
}

#[derive(Debug, Clone, Copy, PartialEq, Eq, Structural)]
pub enum DataBitsParam {
    Seven,
    Eight,
}

#[derive(Debug, Clone, Copy, PartialEq, Eq, Structural)]
pub enum StopBitsParam {
    One,
    Two,
}

/// Parity as written by callers; `Disabled` is written `None`.
#[derive(Debug, Clone, Copy, PartialEq, Eq, Structural)]
pub enum ParityParam {
    Disabled,
    Odd,
    Even,
}

impl Default for ParityParam {
    fn default() -> (p: Self)
        ensures
            p == ParityParam::Disabled,
    {
        ParityParam::Disabled
    }
}

/// Flow control as written by callers; `Disabled` is written `None`.
#[derive(Debug, Clone, Copy, PartialEq, Eq, Structural)]
pub enum FlowControlParam {
    Disabled,
    Software,
    Hardware,
}

impl Default for FlowControlParam {
    fn default() -> (f: Self)
        ensures
            f == FlowControlParam::Disabled,
    {
        FlowControlParam::Disabled
    }
}

#[derive(Debug, Clone, Copy, PartialEq, Eq, Structural)]
pub enum ModbusActionParam {
    Pack,
    Unpack,
}

impl Default for ModbusActionParam {
    fn default() -> (a: Self)
        ensures
            a == ModbusActionParam::Pack,
    {
        ModbusActionParam::Pack
    }
}

#[derive(Debug, Clone, Copy, PartialEq, Eq, Structural)]
pub enum ModbusModeParam {
    Rtu,
    Ascii,
}

impl Default for ModbusModeParam {
    fn default() -> (m: Self)
        ensures
            m == ModbusModeParam::Rtu,
    {
        ModbusModeParam::Rtu
    }
}

#[derive(Debug, Clone, Copy, PartialEq, Eq, Structural)]
pub enum ScpiActionParam {
    Normalize,
}

impl Default for ScpiActionParam {
    fn default() -> (a: Self)
        ensures
            a == ScpiActionParam::Normalize,
    {
        ScpiActionParam::Normalize
    }
}

#[derive(Debug, Clone, Copy, PartialEq, Eq, Structural)]
pub enum SlipActionParam {
    Encode,
    Decode,
}

impl Default for SlipActionParam {
    fn default() -> (a: Self)
        ensures
            a == SlipActionParam::Encode,
    {
        SlipActionParam::Encode
    }
}

#[derive(Debug, Clone, Copy, PartialEq, Eq, Structural)]
pub enum DebugClearTargetParam {
    Tx,
    Rx,
    All,
}

#[derive(Debug, Clone)]
pub struct InstanceCreateParams {
    pub instance_type: InstanceTypeParam,
}

#[derive(Debug, Clone)]
pub struct HandleParams {
    pub handle_id: String,
}

#[derive(Debug, Clone)]
pub struct InstanceQueryParams {
    pub handle_id: Option<String>,
}

#[derive(Debug, Clone)]
pub struct InstanceReleaseParams {
    pub handle_id: String,
    pub force: bool,
}

#[derive(Debug, Clone)]
pub struct SerialConfigParams {
    pub handle_id: String,
    pub port: String,
    pub baudrate: u32,
    pub data_bits: DataBitsParam,
    pub stop_bits: StopBitsParam,
    pub parity: ParityParam,
    pub flow_control: FlowControlParam,
    pub timeout_ms: u64,
    pub encoding: EncodingParam,
}

#[derive(Debug, Clone)]
pub struct TcpUdpConfigParams {
    pub handle_id: String,
    pub mode: TcpModeParam,
    pub host: Option<String>,
    pub port: Option<u16>,
    pub bind_host: Option<String>,
    pub bind_port: Option<u16>,
    pub remote_host: Option<String>,
    pub remote_port: Option<u16>,
    pub timeout_ms: u64,
}

#[derive(Debug, Clone)]
pub struct VisaConfigParams {
    pub handle_id: String,
    pub resource_address: String,
    pub open_timeout_ms: u64,
    pub io_timeout_ms: u64,
    pub read_termination: Option<String>,
    pub write_termination: Option<String>,
    pub encoding: EncodingParam,
    pub query_idn_on_connect: bool,
}

#[derive(Debug, Clone)]
pub struct PortScanParams {
    pub scan_type: InstanceTypeParam,
    pub config: PortScanConfigParams,
}

#[derive(Debug, Clone)]
pub struct PortScanConfigParams {
    pub host: Option<String>,
    pub start_port: Option<u16>,
    pub end_port: Option<u16>,
    pub resource_filter: Option<String>,
    pub max_concurrency: usize,
    pub max_results: usize,
    pub timeout_ms: u64,
}

impl Default for PortScanConfigParams {
    /// The settings a scan is given when none are passed: every field
    /// absent or zero.
    fn default() -> (p: Self)
        ensures
            p.host is None,
            p.start_port is None,
            p.end_port is None,
            p.resource_filter is None,
            p.max_concurrency == 0,
            p.max_results == 0,
            p.timeout_ms == 0,
    {
        PortScanConfigParams {
            host: None,
            start_port: None,
            end_port: None,
            resource_filter: None,
            max_concurrency: 0,
            max_results: 0,
            timeout_ms: 0,
        }
    }
}

#[derive(Debug, Clone)]
pub struct PortSendParams {
    pub handle_id: String,
    pub data: String,
    pub peer_id: Option<String>,
    pub encoding: EncodingParam,
    pub append_line_break: bool,
}

#[derive(Debug, Clone)]
pub struct PortPullParams {
    pub handle_id: String,
    pub max_bytes: Option<usize>,
    pub peer_id: Option<String>,
}

#[derive(Debug, Clone)]
pub struct PortClearParams {
    pub handle_id: String,
    pub target: ClearTargetParam,
}

#[derive(Debug, Clone)]
pub struct SubscribeParams {
    pub handle_id: String,
    pub max_payload_bytes: usize,
}

#[derive(Debug, Clone)]
pub struct DebugLogConfigParams {
    pub port_io_log_bytes: usize,
}

#[derive(Debug, Clone)]
pub struct DebugSerialProfileParams {
    pub port: Option<String>,
    pub baudrate: Option<u32>,
    pub data_bits: Option<DataBitsParam>,
    pub stop_bits: Option<StopBitsParam>,
    pub parity: Option<ParityParam>,
    pub flow_control: Option<FlowControlParam>,
    pub timeout_ms: Option<u64>,
    pub encoding: Option<EncodingParam>,
}

#[derive(Debug, Clone)]
pub struct DebugTcpProfileParams {
    pub mode: Option<TcpModeParam>,
    pub host: Option<String>,
    pub port: Option<u16>,
    pub bind_host: Option<String>,
    pub bind_port: Option<u16>,
    pub timeout_ms: Option<u64>,
}

#[derive(Debug, Clone)]
pub struct DebugUdpProfileParams {
    pub bind_host: Option<String>,
    pub bind_port: Option<u16>,
    pub remote_host: Option<String>,
    pub remote_port: Option<u16>,
    pub timeout_ms: Option<u64>,
}

#[derive(Debug, Clone)]
pub struct DebugVisaProfileParams {
    pub resource_address: Option<String>,
    pub open_timeout_ms: Option<u64>,
    pub io_timeout_ms: Option<u64>,
    pub read_termination: Option<String>,
    pub write_termination: Option<String>,
    pub encoding: Option<EncodingParam>,
    pub query_idn_on_connect: Option<bool>,
}

#[derive(Debug, Clone)]
pub struct DebugPayloadDefaultsParams {
    pub encoding: Option<EncodingParam>,
    pub append_line_break: Option<bool>,
}

#[derive(Debug, Clone)]
pub struct DebugPullDefaultsParams {
    pub max_bytes: Option<usize>,
    pub peer_id: Option<String>,
}

#[derive(Debug, Clone)]
pub struct DebugProfileParams {
    pub transport: Option<InstanceTypeParam>,
    pub serial: Option<DebugSerialProfileParams>,
    pub tcp: Option<DebugTcpProfileParams>,
    pub udp: Option<DebugUdpProfileParams>,
    pub visa: Option<DebugVisaProfileParams>,
    pub payload: Option<DebugPayloadDefaultsParams>,
    pub pull: Option<DebugPullDefaultsParams>,
    pub bound_handle_id: Option<Option<String>>,
}

#[derive(Debug, Clone)]
pub struct DebugConnectParams {
    pub transport: Option<InstanceTypeParam>,
    pub serial: Option<DebugSerialProfileParams>,
    pub tcp: Option<DebugTcpProfileParams>,
    pub udp: Option<DebugUdpProfileParams>,
    pub visa: Option<DebugVisaProfileParams>,
    pub reuse_bound_handle: bool,
    pub bind_profile_handle: bool,
}

#[derive(Debug, Clone)]
pub struct DebugExchangeParams {
    pub handle_id: Option<String>,
    pub clear_before: Option<DebugClearTargetParam>,
    pub data: Option<String>,
    pub encoding: Option<EncodingParam>,
    pub append_line_break: Option<bool>,
    pub pull_after: bool,
    pub max_bytes: Option<usize>,
    pub peer_id: Option<String>,
}

#[derive(Debug, Clone)]
pub struct DebugCloseParams {
    pub handle_id: Option<String>,
    pub release: bool,
    pub force_release: bool,
}

#[derive(Debug, Clone)]
pub struct StrToHexParams {
    pub input_string: String,
}

#[derive(Debug, Clone)]
pub struct HexToStrParams {
    pub hex: String,
}

#[derive(Debug, Clone)]
pub struct ModbusHelperParams {
    pub action: ModbusActionParam,
    pub mode: ModbusModeParam,
    pub slave_id: Option<u8>,
    pub function_code: Option<u8>,
    pub address: Option<u16>,
    pub data_or_hex: Option<String>,
    pub frame_hex: Option<String>,
    pub crc_check: bool,
}

#[derive(Debug, Clone)]
pub struct ScpiHelperParams {
    pub action: ScpiActionParam,
    pub command: String,
    pub arguments: Option<String>,
    pub expect_response: Option<String>,
}

#[derive(Debug, Clone)]
pub struct AtHelperParams {
    pub command: String,
}

#[derive(Debug, Clone)]
pub struct SlipHelperParams {
    pub action: SlipActionParam,
    pub payload_hex: String,
}

pub open spec fn data_bits_of(v: DataBitsParam) -> DataBits {
    match v {
        DataBitsParam::Seven => DataBits::Seven,
        DataBitsParam::Eight => DataBits::Eight,
    }
}

pub open spec fn stop_bits_of(v: StopBitsParam) -> StopBits {
    match v {
        StopBitsParam::One => StopBits::One,
        StopBitsParam::Two => StopBits::Two,
    }
}

pub open spec fn parity_of(v: ParityParam) -> Parity {
    match v {
        ParityParam::Disabled => Parity::Disabled,
        ParityParam::Odd => Parity::Odd,
        ParityParam::Even => Parity::Even,
    }
}

pub open spec fn flow_control_of(v: FlowControlParam) -> FlowControl {
    match v {
        FlowControlParam::Disabled => FlowControl::Disabled,
        FlowControlParam::Software => FlowControl::Software,
        FlowControlParam::Hardware => FlowControl::Hardware,
    }
}

pub open spec fn encoding_of(v: EncodingParam) -> PayloadEncoding {
    match v {
        EncodingParam::Text => PayloadEncoding::Text,
        EncodingParam::Hex => PayloadEncoding::Hex,
    }
}

pub open spec fn tcp_mode_of(v: TcpModeParam) -> TcpMode {
    match v {
        TcpModeParam::Client => TcpMode::Client,
        TcpModeParam::Listen => TcpMode::Listen,
    }
}

pub open spec fn clear_target_of(v: DebugClearTargetParam) -> ClearTarget {
    match v {
        DebugClearTargetParam::Tx => ClearTarget::Tx,
        DebugClearTargetParam::Rx => ClearTarget::Rx,
        DebugClearTargetParam::All => ClearTarget::All,
    }
}

/// Each setting a caller writes is applied as the same setting: seven or
/// eight data bits, one or two stop bits, no, odd or even parity, and no,
/// software (XON/XOFF) or hardware (RTS/CTS) flow control.
pub proof fn serial_settings_applied_as_written()
    ensures
        data_bits_of(DataBitsParam::Seven) == DataBits::Seven,
        data_bits_of(DataBitsParam::Eight) == DataBits::Eight,
        stop_bits_of(StopBitsParam::One) == StopBits::One,
        stop_bits_of(StopBitsParam::Two) == StopBits::Two,
        parity_of(ParityParam::Disabled) == Parity::Disabled,
        parity_of(ParityParam::Odd) == Parity::Odd,
        parity_of(ParityParam::Even) == Parity::Even,
        flow_control_of(FlowControlParam::Disabled) == FlowControl::Disabled,
        flow_control_of(FlowControlParam::Software) == FlowControl::Software,
        flow_control_of(FlowControlParam::Hardware) == FlowControl::Hardware,
        forall|a: StopBitsParam, b: StopBitsParam| stop_bits_of(a) == stop_bits_of(b) ==> a == b,
        forall|a: DataBitsParam, b: DataBitsParam| data_bits_of(a) == data_bits_of(b) ==> a == b,
        forall|a: ParityParam, b: ParityParam| parity_of(a) == parity_of(b) ==> a == b,
        forall|a: FlowControlParam, b: FlowControlParam| flow_control_of(a) == flow_control_of(b) ==> a == b,
{
}

/// The other choices a caller writes are applied as written too: the
/// payload encoding, the TCP mode, the instance type and the buffer a clear
/// empties.
pub proof fn choices_applied_as_written()
    ensures
        encoding_of(EncodingParam::Text) == PayloadEncoding::Text,
        encoding_of(EncodingParam::Hex) == PayloadEncoding::Hex,
        tcp_mode_of(TcpModeParam::Client) == TcpMode::Client,
        tcp_mode_of(TcpModeParam::Listen) == TcpMode::Listen,
        instance_type_of(InstanceTypeParam::Serial) == InstanceType::Serial,
        instance_type_of(InstanceTypeParam::Tcp) == InstanceType::Tcp,
        instance_type_of(InstanceTypeParam::Udp) == InstanceType::Udp,
        instance_type_of(InstanceTypeParam::Visa) == InstanceType::Visa,
        clear_target_of(DebugClearTargetParam::Tx) == ClearTarget::Tx,
        clear_target_of(DebugClearTargetParam::Rx) == ClearTarget::Rx,
        clear_target_of(DebugClearTargetParam::All) == ClearTarget::All,
{
}

pub fn map_data_bits(value: DataBitsParam) -> (d: DataBits)
    ensures
        d == data_bits_of(value),
{
    match value {
        DataBitsParam::Seven => DataBits::Seven,
        DataBitsParam::Eight => DataBits::Eight,
    }
}

pub fn map_stop_bits(value: StopBitsParam) -> (s: StopBits)
    ensures
        s == stop_bits_of(value),
{
    match value {
        StopBitsParam::One => StopBits::One,
        StopBitsParam::Two => StopBits::Two,
    }
}

pub fn map_parity(value: ParityParam) -> (p: Parity)
    ensures
        p == parity_of(value),
{
    match value {
        ParityParam::Disabled => Parity::Disabled,
        ParityParam::Odd => Parity::Odd,
        ParityParam::Even => Parity::Even,
    }
}

pub fn map_flow_control(value: FlowControlParam) -> (f: FlowControl)
    ensures
        f == flow_control_of(value),
{
    match value {
        FlowControlParam::Disabled => FlowControl::Disabled,
        FlowControlParam::Software => FlowControl::Software,
        FlowControlParam::Hardware => FlowControl::Hardware,
    }
}

pub fn map_encoding(value: EncodingParam) -> (e: PayloadEncoding)
    ensures
        e == encoding_of(value),
{
    match value {
        EncodingParam::Text => PayloadEncoding::Text,
        EncodingParam::Hex => PayloadEncoding::Hex,
    }
}

pub fn map_tcp_mode(value: TcpModeParam) -> (m: TcpMode)
    ensures
        m == tcp_mode_of(value),
{
    match value {
        TcpModeParam::Client => TcpMode::Client,
        TcpModeParam::Listen => TcpMode::Listen,
    }
}

pub fn map_debug_clear_target(value: DebugClearTargetParam) -> (t: ClearTarget)
    ensures
        t == clear_target_of(value),
{
    match value {
        DebugClearTargetParam::Tx => ClearTarget::Tx,
        DebugClearTargetParam::Rx => ClearTarget::Rx,
        DebugClearTargetParam::All => ClearTarget::All,
    }
}

pub fn map_clear_target(value: ClearTargetParam) -> (t: ClearTarget)
    ensures
        t == match value {
            ClearTargetParam::Tx => ClearTarget::Tx,
            ClearTargetParam::Rx => ClearTarget::Rx,
            ClearTargetParam::All => ClearTarget::All,
        },
{
    match value {
        ClearTargetParam::Tx => ClearTarget::Tx,
        ClearTargetParam::Rx => ClearTarget::Rx,
        ClearTargetParam::All => ClearTarget::All,
    }
}

pub fn map_modbus_mode(value: ModbusModeParam) -> (m: ModbusMode)
    ensures
        m == match value {
            ModbusModeParam::Rtu => ModbusMode::Rtu,
            ModbusModeParam::Ascii => ModbusMode::Ascii,
        },
{
    match value {
        ModbusModeParam::Rtu => ModbusMode::Rtu,
        ModbusModeParam::Ascii => ModbusMode::Ascii,
    }
}

/// The lower-case name of a clear target.
pub fn debug_clear_target_name(value: ClearTarget) -> (s: &'static str)
    ensures
        s@ == match value {
            ClearTarget::Tx => "tx"@,
            ClearTarget::Rx => "rx"@,
            ClearTarget::All => "all"@,
        },
{
    proof {
        reveal_strlit("tx");
        reveal_strlit("rx");
        reveal_strlit("all");
    }
    match value {
        ClearTarget::Tx => "tx",
        ClearTarget::Rx => "rx",
        ClearTarget::All => "all",
    }
}

pub fn default_crc_check() -> (b: bool)
    ensures
        b,
{
    true
}

pub fn default_true() -> (b: bool)
    ensures
        b,
{
    true
}

pub fn default_baudrate() -> (b: u32)
    ensures
        b == 115200,
{
    115200
}

pub fn default_data_bits() -> (d: DataBitsParam)
    ensures
        d == DataBitsParam::Eight,
{
    DataBitsParam::Eight
}

pub fn default_stop_bits() -> (s: StopBitsParam)
    ensures
        s == StopBitsParam::One,
{
    StopBitsParam::One
}

pub fn default_timeout_ms() -> (t: u64)
    ensures
        t == 1000,
{
    1000
}

pub fn default_scan_results() -> (n: usize)
    ensures
        n == 128,
{
    128
}

pub fn default_scan_concurrency() -> (n: usize)
    ensures
        n == 16,
{
    16
}

pub fn default_subscriber_payload_bytes() -> (n: usize)
    ensures
        n == 16384,
{
    16384
}

} // verus!
