//! Answers of the port service that need no open instance.
use vstd::prelude::*;
use vstd::utf8::{decode_utf8, valid_utf8};

use crate::model::config::{ConfigSnapshot, InstanceSummary, PayloadEncoding, TcpMode};
use crate::model::data::{preview_text, PayloadSummary};
use crate::model::error::{DomainError, ErrorCategory, ErrorCode};
use crate::runtime::buffers::PullResult;
use crate::runtime::locks::{tcp_listen_key, udp_bind_key, visa_key, ResourceKey};
use crate::transport::common::TransportError;
use crate::transport::serial::SerialPortSummary;

verus! {

/// The hint given for a transport failure of an open instance, by category.
pub open spec fn io_failure_hint(category: ErrorCategory) -> Seq<char> {
    match category {
        ErrorCategory::ReadTimeout => "Retry, increase timeout_ms, or check that the peer sent data."@,
        ErrorCategory::WriteFailed => "Check the serial link and retry the write."@,
        ErrorCategory::ResourceBusy => "Close other programs using this serial port, then retry."@,
        ErrorCategory::ConnectTimeout => "Check the serial device and timeout_ms, then retry."@,
        _ => "Check the serial device state, then retry."@,
    }
}

/// A transport failure of an open instance as a tool error, with a hint
/// chosen by its category; it is retryable exactly when it is fatal.
pub fn transport_error_to_domain(error: TransportError) -> (e: DomainError)
    ensures
        e.category == error.category,
        e.code == error.code,
        e.message@ == error.message@,
        e.recovery_hint@ == io_failure_hint(error.category),
        e.retryable == error.fatal,
        e.details@.len() == 0,
{
    proof {
        reveal_strlit("Retry, increase timeout_ms, or check that the peer sent data.");
        reveal_strlit("Check the serial link and retry the write.");
        reveal_strlit("Close other programs using this serial port, then retry.");
        reveal_strlit("Check the serial device and timeout_ms, then retry.");
        reveal_strlit("Check the serial device state, then retry.");
    }
    let hint = match error.category {
        ErrorCategory::ReadTimeout => "Retry, increase timeout_ms, or check that the peer sent data.",
        ErrorCategory::WriteFailed => "Check the serial link and retry the write.",
        ErrorCategory::ResourceBusy => "Close other programs using this serial port, then retry.",
        ErrorCategory::ConnectTimeout => "Check the serial device and timeout_ms, then retry.",
        _ => "Check the serial device state, then retry.",
    };
    DomainError::new(error.category, error.code, error.message.as_str(), hint, error.fatal)
}

/// Scanning and previews shared by the tools.
#[derive(Debug, Clone, Copy)]
pub struct PortService;

impl PortService {
    pub fn new() -> (s: Self) {
        PortService
    }

    /// A preview of at most the default pull size (4096 bytes) of `bytes`.
    pub fn summarize_payload(bytes: &[u8], encoding: PayloadEncoding) -> (s: PayloadSummary)
        ensures
            ({
                let shown = if bytes@.len() < 4096 {
                    bytes@.len() as int
                } else {
                    4096
                };
                &&& s.preview@ == preview_text(bytes@.take(shown), encoding)
                &&& (encoding == PayloadEncoding::Text && valid_utf8(bytes@.take(shown))
                    ==> s.preview@ == decode_utf8(bytes@.take(shown)))
                &&& s.preview_encoding == encoding
                &&& s.payload_bytes == bytes@.len()
                &&& s.omitted_bytes == bytes@.len() - shown
                &&& s.truncated == (bytes@.len() > shown)
                &&& !s.datagram
            }),
    {
        PayloadSummary::from_bytes(bytes, encoding, 4096, false)
    }

    /// Scans for VISA resources matching `resource_filter`; this build has
    /// no VISA backend, so the scan reports that.
    pub fn scan_visa(&self, resource_filter: &str, max_results: usize) -> (r: Result<
        crate::transport::visa::VisaScanResult,
        DomainError,
    >)
        ensures
            r matches Err(e) && crate::transport::visa::not_compiled(e, "port_scan"@),
    {
        crate::transport::visa::scan_visa_resources(resource_filter, max_results)
    }

    /// The answer to a serial scan: the ports found, or the scan's failure
    /// with a hint about permissions and drivers.
    pub fn scan_serial(&self, scanned: Result<Vec<SerialPortSummary>, TransportError>) -> (r: Result<
        Vec<SerialPortSummary>,
        DomainError,
    >)
        ensures
            match scanned {
                Ok(ports) => r == Ok::<Vec<SerialPortSummary>, DomainError>(ports),
                Err(t) => r matches Err(e) && {
                    &&& e.category == t.category
                    &&& e.code == t.code
                    &&& e.message@ == t.message@
                    &&& !e.retryable
                    &&& e.recovery_hint@ == "Check serial device permissions and driver state, then retry port_scan."@
                },
            },
    {
        match scanned {
            Ok(ports) => Ok(ports),
            Err(t) => Err(
                DomainError::new(
                    t.category,
                    t.code,
                    t.message.as_str(),
                    "Check serial device permissions and driver state, then retry port_scan.",
                    false,
                ),
            ),
        }
    }
}

/// The lock whose close a forced release completes: a TCP listener's or a
/// UDP socket's address, or a VISA address; serial ports and TCP clients
/// leave none behind.
pub open spec fn release_close_key(config: Option<ConfigSnapshot>) -> Option<Seq<char>> {
    match config {
        Some(ConfigSnapshot::Tcp(c)) => match c.mode {
            TcpMode::Listen => Some(tcp_listen_key(c.host@, c.port as nat)),
            TcpMode::Client => None,
        },
        Some(ConfigSnapshot::Udp(c)) => Some(udp_bind_key(c.bind_host@, c.bind_port as nat)),
        Some(ConfigSnapshot::Visa(c)) => Some(visa_key(c.resource_address@)),
        _ => None,
    }
}

/// The key of [`release_close_key`] for a released instance's summary.
pub fn resource_key_for_summary(summary: &InstanceSummary) -> (r: Option<ResourceKey>)
    ensures
        match r {
            Some(k) => release_close_key(summary.config) == Some(k@),
            None => release_close_key(summary.config) is None,
        },
{
    match &summary.config {
        Some(ConfigSnapshot::Tcp(c)) => match c.mode {
            TcpMode::Listen => Some(ResourceKey::tcp_listen(c.host.as_str(), c.port)),
            TcpMode::Client => None,
        },
        Some(ConfigSnapshot::Udp(c)) => Some(ResourceKey::udp_bind(c.bind_host.as_str(), c.bind_port)),
        Some(ConfigSnapshot::Visa(c)) => Some(ResourceKey::visa(c.resource_address.as_str())),
        _ => None,
    }
}

/// The answer to a pull of an instance without an open worker: a read
/// time-out of the buffered pull (nothing buffered) is an empty pull; any
/// other outcome stays as it is.
pub fn pull_timeout_as_empty(r: Result<PullResult, DomainError>) -> (o: Result<PullResult, DomainError>)
    ensures
        match r {
            Err(e) => if e.code == ErrorCode::ReadTimeout {
                o matches Ok(p) && p.bytes@.len() == 0 && !p.truncated && p.remaining_rx_buffer_bytes == 0
                    && p.source is None
            } else {
                o == r
            },
            Ok(_) => o == r,
        },
{
    match r {
        Err(e) => {
            let timed_out = match e.code {
                ErrorCode::ReadTimeout => true,
                _ => false,
            };
            if timed_out {
                Ok(PullResult { bytes: Vec::new(), truncated: false, remaining_rx_buffer_bytes: 0, source: None })
            } else {
                Err(e)
            }
        },
        Ok(p) => Ok(p),
    }
}

} // verus!
