//! The arguments of a device probe and their defaults.
use vstd::prelude::*;

use crate::model::config::{DataBits, FlowControl, Parity, PayloadEncoding, StopBits};

verus! {

/// A family of resources a probe can reach.
#[derive(Debug, Clone, Copy, PartialEq, Eq, Structural)]
pub enum ProbeTarget {
    Serial,
    Visa,
}

#[derive(Debug, Clone, Copy, PartialEq, Eq, Structural)]
pub enum ProbeEncoding {
    Text,
    Hex,
}

impl Default for ProbeEncoding {
    fn default() -> (e: Self)
        ensures
            e == ProbeEncoding::Text,
    {
        ProbeEncoding::Text
    }
}

#[derive(Debug, Clone, Copy, PartialEq, Eq, Structural)]
pub enum ProbeDataBits {
    Seven,
    Eight,
}

#[derive(Debug, Clone, Copy, PartialEq, Eq, Structural)]
pub enum ProbeStopBits {
    One,
    Two,
}

/// Parity of a serial candidate; `Disabled` is written `None` by callers.
#[derive(Debug, Clone, Copy, PartialEq, Eq, Structural)]
pub enum ProbeParity {
    Disabled,
    Odd,
    Even,
}

impl Default for ProbeParity {
    fn default() -> (p: Self)
        ensures
            p == ProbeParity::Disabled,
    {
        ProbeParity::Disabled
    }
}

/// Flow control of a serial candidate; `Disabled` is written `None` by callers.
#[derive(Debug, Clone, Copy, PartialEq, Eq, Structural)]
pub enum ProbeFlowControl {
    Disabled,
    Software,
    Hardware,
}

impl Default for ProbeFlowControl {
    fn default() -> (f: Self)
        ensures
            f == ProbeFlowControl::Disabled,
    {
        ProbeFlowControl::Disabled
    }
}

/// Whether failed attempts are only counted or also sampled.
#[derive(Debug, Clone, Copy, PartialEq, Eq, Structural)]
pub enum FailureOutputParam {
    Counts,
    Samples,
}

impl Default for FailureOutputParam {
    fn default() -> (f: Self)
        ensures
            f == FailureOutputParam::Counts,
    {
        FailureOutputParam::Counts
    }
}

/// How a response is recognised.
#[derive(Debug, Clone)]
pub enum ProbeMatcherParams {
    Contains { value: String },
    HexContains { value: String },
    Regex { value: String },
    HexRegex { value: String },
    AnyResponse,
}

/// The bounds of one probe run.
#[derive(Debug, Clone, Copy)]
pub struct ProbeLimitsParams {
    pub max_resources: usize,
    pub max_candidates_per_resource: usize,
    pub max_concurrency: usize,
    pub payload_max_bytes: usize,
    pub response_max_bytes: usize,
    pub regex_pattern_max_bytes: usize,
    pub total_timeout_ms: u64,
    pub failure_sample_max: usize,
    pub stop_after_first_success_per_resource: bool,
    pub stop_after_first_success_total: bool,
}

/// The documented default bounds.
pub open spec fn is_default_probe_limits(l: ProbeLimitsParams) -> bool {
    &&& l.max_resources == 32
    &&& l.max_candidates_per_resource == 16
    &&& l.max_concurrency == 8
    &&& l.payload_max_bytes == 1024
    &&& l.response_max_bytes == 4096
    &&& l.regex_pattern_max_bytes == 1024
    &&& l.total_timeout_ms == 10000
    &&& l.failure_sample_max == 8
    &&& l.stop_after_first_success_per_resource
    &&& !l.stop_after_first_success_total
}

impl Default for ProbeLimitsParams {
    fn default() -> (l: Self)
        ensures
            is_default_probe_limits(l),
    {
        ProbeLimitsParams {
            max_resources: default_max_resources(),
            max_candidates_per_resource: default_max_candidates_per_resource(),
            max_concurrency: default_max_concurrency(),
            payload_max_bytes: default_payload_max_bytes(),
            response_max_bytes: default_response_max_bytes(),
            regex_pattern_max_bytes: default_regex_pattern_max_bytes(),
            total_timeout_ms: default_total_timeout_ms(),
            failure_sample_max: default_failure_sample_max(),
            stop_after_first_success_per_resource: true,
            stop_after_first_success_total: false,
        }
    }
}

/// Serial candidates: every listed (or discovered) port at each baud rate.
#[derive(Debug, Clone)]
pub struct SerialProbeParams {
    pub ports: Option<Vec<String>>,
    pub baudrates: Vec<u32>,
    pub data_bits: ProbeDataBits,
    pub stop_bits: ProbeStopBits,
    pub parity: ProbeParity,
    pub flow_control: ProbeFlowControl,
    pub timeout_ms: u64,
    pub encoding: ProbeEncoding,
}

/// VISA candidates: every listed (or discovered) resource.
#[derive(Debug, Clone)]
pub struct VisaProbeParams {
    pub resources: Option<Vec<String>>,
    pub resource_filter: Option<String>,
    pub max_results: usize,
    pub open_timeout_ms: u64,
    pub io_timeout_ms: u64,
    pub read_termination: Option<String>,
    pub write_termination: Option<String>,
    pub encoding: ProbeEncoding,
}

impl VisaProbeParams {
    /// The VISA settings used when none are given: discovery, 128 results,
    /// one-second timeouts, no terminations, text payloads.
    pub fn defaults() -> (v: Self)
        ensures
            v.resources is None,
            v.resource_filter is None,
            v.max_results == 128,
            v.open_timeout_ms == 1000,
            v.io_timeout_ms == 1000,
            v.read_termination is None,
            v.write_termination is None,
            v.encoding == ProbeEncoding::Text,
    {
        VisaProbeParams {
            resources: None,
            resource_filter: None,
            max_results: default_visa_max_results(),
            open_timeout_ms: default_timeout_ms(),
            io_timeout_ms: default_timeout_ms(),
            read_termination: None,
            write_termination: None,
            encoding: ProbeEncoding::Text,
        }
    }
}

/// What is sent to every candidate.
#[derive(Debug, Clone)]
pub struct ProbePayloadParams {
    pub data: String,
    pub encoding: ProbeEncoding,
    pub append_line_break: bool,
}

/// A whole probe request as a caller writes it.
#[derive(Debug, Clone)]
pub struct DeviceProbeParams {
    pub targets: Vec<ProbeTarget>,
    pub serial: Option<SerialProbeParams>,
    pub visa: Option<VisaProbeParams>,
    pub payload: ProbePayloadParams,
    pub matcher: ProbeMatcherParams,
    pub limits: ProbeLimitsParams,
    pub failure_output: FailureOutputParam,
    pub include_failure_samples: bool,
}

/// Why one candidate attempt did not match.
#[derive(Debug, Clone, Copy, PartialEq, Eq, Structural)]
pub enum ProbeAttemptStatus {
    Timeout,
    MatcherMiss,
    OpenError,
    WriteError,
    ReadError,
    Unsupported,
    LimitSkipped,
}

pub open spec fn attempt_status_name(s: ProbeAttemptStatus) -> Seq<char> {
    match s {
        ProbeAttemptStatus::Timeout => "timeout"@,
        ProbeAttemptStatus::MatcherMiss => "matcher_miss"@,
        ProbeAttemptStatus::OpenError => "open_error"@,
        ProbeAttemptStatus::WriteError => "write_error"@,
        ProbeAttemptStatus::ReadError => "read_error"@,
        ProbeAttemptStatus::Unsupported => "unsupported"@,
        ProbeAttemptStatus::LimitSkipped => "limit_skipped"@,
    }
}

impl ProbeAttemptStatus {
    /// The snake-case name of the status.
    pub fn as_str(self) -> (s: &'static str)
        ensures
            s@ == attempt_status_name(self),
    {
        proof {
            reveal_strlit("timeout");
            reveal_strlit("matcher_miss");
            reveal_strlit("open_error");
            reveal_strlit("write_error");
            reveal_strlit("read_error");
            reveal_strlit("unsupported");
            reveal_strlit("limit_skipped");
        }
        match self {
            ProbeAttemptStatus::Timeout => "timeout",
            ProbeAttemptStatus::MatcherMiss => "matcher_miss",
            ProbeAttemptStatus::OpenError => "open_error",
            ProbeAttemptStatus::WriteError => "write_error",
            ProbeAttemptStatus::ReadError => "read_error",
            ProbeAttemptStatus::Unsupported => "unsupported",
            ProbeAttemptStatus::LimitSkipped => "limit_skipped",
        }
    }
}

pub open spec fn encoding_of(e: ProbeEncoding) -> PayloadEncoding {
    match e {
        ProbeEncoding::Text => PayloadEncoding::Text,
        ProbeEncoding::Hex => PayloadEncoding::Hex,
    }
}

pub open spec fn data_bits_of(d: ProbeDataBits) -> DataBits {
    match d {
        ProbeDataBits::Seven => DataBits::Seven,
        ProbeDataBits::Eight => DataBits::Eight,
    }
}

pub open spec fn stop_bits_of(s: ProbeStopBits) -> StopBits {
    match s {
        ProbeStopBits::One => StopBits::One,
        ProbeStopBits::Two => StopBits::Two,
    }
}

pub open spec fn parity_of(p: ProbeParity) -> Parity {
    match p {
        ProbeParity::Disabled => Parity::Disabled,
        ProbeParity::Odd => Parity::Odd,
        ProbeParity::Even => Parity::Even,
    }
}

pub open spec fn flow_control_of(f: ProbeFlowControl) -> FlowControl {
    match f {
        ProbeFlowControl::Disabled => FlowControl::Disabled,
        ProbeFlowControl::Software => FlowControl::Software,
        ProbeFlowControl::Hardware => FlowControl::Hardware,
    }
}

/// A probe tries each serial candidate with the settings the request wrote:
/// seven or eight data bits, one or two stop bits, no, odd or even parity,
/// no, software (XON/XOFF) or hardware (RTS/CTS) flow control, and the
/// payload read as text or hex.
pub proof fn probe_settings_applied_as_written()
    ensures
        data_bits_of(ProbeDataBits::Seven) == DataBits::Seven,
        data_bits_of(ProbeDataBits::Eight) == DataBits::Eight,
        stop_bits_of(ProbeStopBits::One) == StopBits::One,
        stop_bits_of(ProbeStopBits::Two) == StopBits::Two,
        parity_of(ProbeParity::Disabled) == Parity::Disabled,
        parity_of(ProbeParity::Odd) == Parity::Odd,
        parity_of(ProbeParity::Even) == Parity::Even,
        flow_control_of(ProbeFlowControl::Disabled) == FlowControl::Disabled,
        flow_control_of(ProbeFlowControl::Software) == FlowControl::Software,
        flow_control_of(ProbeFlowControl::Hardware) == FlowControl::Hardware,
        encoding_of(ProbeEncoding::Text) == PayloadEncoding::Text,
        encoding_of(ProbeEncoding::Hex) == PayloadEncoding::Hex,
        forall|a: ProbeFlowControl, b: ProbeFlowControl| flow_control_of(a) == flow_control_of(b) ==> a == b,
        forall|a: ProbeParity, b: ProbeParity| parity_of(a) == parity_of(b) ==> a == b,
        forall|a: ProbeStopBits, b: ProbeStopBits| stop_bits_of(a) == stop_bits_of(b) ==> a == b,
        forall|a: ProbeDataBits, b: ProbeDataBits| data_bits_of(a) == data_bits_of(b) ==> a == b,
{
}

pub fn map_encoding(value: ProbeEncoding) -> (e: PayloadEncoding)
    ensures
        e == encoding_of(value),
{
    match value {
        ProbeEncoding::Text => PayloadEncoding::Text,
        ProbeEncoding::Hex => PayloadEncoding::Hex,
    }
}

pub fn map_data_bits(value: ProbeDataBits) -> (d: DataBits)
    ensures
        d == data_bits_of(value),
{
    match value {
        ProbeDataBits::Seven => DataBits::Seven,
        ProbeDataBits::Eight => DataBits::Eight,
    }
}

pub fn map_stop_bits(value: ProbeStopBits) -> (s: StopBits)
    ensures
        s == stop_bits_of(value),
{
    match value {
        ProbeStopBits::One => StopBits::One,
        ProbeStopBits::Two => StopBits::Two,
    }
}

pub fn map_parity(value: ProbeParity) -> (p: Parity)
    ensures
        p == parity_of(value),
{
    match value {
        ProbeParity::Disabled => Parity::Disabled,
        ProbeParity::Odd => Parity::Odd,
        ProbeParity::Even => Parity::Even,
    }
}

pub fn map_flow_control(value: ProbeFlowControl) -> (f: FlowControl)
    ensures
        f == flow_control_of(value),
{
    match value {
        ProbeFlowControl::Disabled => FlowControl::Disabled,
        ProbeFlowControl::Software => FlowControl::Software,
        ProbeFlowControl::Hardware => FlowControl::Hardware,
    }
}

pub fn default_data_bits() -> (d: ProbeDataBits)
    ensures
        d == ProbeDataBits::Eight,
{
    ProbeDataBits::Eight
}

pub fn default_stop_bits() -> (s: ProbeStopBits)
    ensures
        s == ProbeStopBits::One,
{
    ProbeStopBits::One
}

pub fn default_timeout_ms() -> (t: u64)
    ensures
        t == 1000,
{
    1000
}

pub fn default_visa_max_results() -> (n: usize)
    ensures
        n == 128,
{
    128
}

pub fn default_max_resources() -> (n: usize)
    ensures
        n == 32,
{
    32
}

pub fn default_max_candidates_per_resource() -> (n: usize)
    ensures
        n == 16,
{
    16
}

pub fn default_max_concurrency() -> (n: usize)
    ensures
        n == 8,
{
    8
}

pub fn default_payload_max_bytes() -> (n: usize)
    ensures
        n == 1024,
{
    1024
}

pub fn default_response_max_bytes() -> (n: usize)
    ensures
        n == 4096,
{
    4096
}

pub fn default_regex_pattern_max_bytes() -> (n: usize)
    ensures
        n == 1024,
{
    1024
}

pub fn default_total_timeout_ms() -> (t: u64)
    ensures
        t == 10000,
{
    10000
}

pub fn default_failure_sample_max() -> (n: usize)
    ensures
        n == 8,
{
    8
}

} // verus!
