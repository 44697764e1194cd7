//! Transport failures, their classification from I/O error kinds, and the
//! loopback boundary of network transports.
use vstd::prelude::*;
use vstd::string::StringSliceAdditionalSpecFns;
use vstd::utf8::encode_utf8;

use crate::model::error::{DetailValue, DetailView, DomainError, ErrorCategory, ErrorCode};
use crate::util::ipaddr::{is_loopback_ip, parse_ip, parse_ip_exec, IpAddress, groups_view, octets_view};
use crate::util::text::{str_trim, trim};

verus! {

/// A failure reported by a transport.
#[derive(Debug, Clone)]
pub struct TransportError {
    pub category: ErrorCategory,
    pub code: ErrorCode,
    pub message: String,
    pub fatal: bool,
}

/// `e` has exactly these parts.
pub open spec fn transport_error_is(
    e: TransportError,
    category: ErrorCategory,
    code: ErrorCode,
    message: Seq<char>,
    fatal: bool,
) -> bool {
    &&& e.category == category
    &&& e.code == code
    &&& e.message@ == message
    &&& e.fatal == fatal
}

impl TransportError {
    pub fn read_timeout(message: &str) -> (e: Self)
        ensures
            transport_error_is(e, ErrorCategory::ReadTimeout, ErrorCode::ReadTimeout, message@, false),
    {
        TransportError {
            category: ErrorCategory::ReadTimeout,
            code: ErrorCode::ReadTimeout,
            message: message.to_owned(),
            fatal: false,
        }
    }

    pub fn transport_closed(message: &str) -> (e: Self)
        ensures
            transport_error_is(e, ErrorCategory::WriteFailed, ErrorCode::TransportClosed, message@, true),
    {
        TransportError {
            category: ErrorCategory::WriteFailed,
            code: ErrorCode::TransportClosed,
            message: message.to_owned(),
            fatal: true,
        }
    }

    pub fn write_failed(code: ErrorCode, message: &str) -> (e: Self)
        ensures
            transport_error_is(e, ErrorCategory::WriteFailed, code, message@, true),
    {
        TransportError { category: ErrorCategory::WriteFailed, code, message: message.to_owned(), fatal: true }
    }

    pub fn connect_timeout(message: &str) -> (e: Self)
        ensures
            transport_error_is(e, ErrorCategory::ConnectTimeout, ErrorCode::ConnectTimeout, message@, true),
    {
        TransportError {
            category: ErrorCategory::ConnectTimeout,
            code: ErrorCode::ConnectTimeout,
            message: message.to_owned(),
            fatal: true,
        }
    }

    pub fn tcp_listen_busy(message: &str) -> (e: Self)
        ensures
            transport_error_is(e, ErrorCategory::ResourceBusy, ErrorCode::TcpListenAddrBusy, message@, false),
    {
        TransportError {
            category: ErrorCategory::ResourceBusy,
            code: ErrorCode::TcpListenAddrBusy,
            message: message.to_owned(),
            fatal: false,
        }
    }

    pub fn udp_bind_busy(message: &str) -> (e: Self)
        ensures
            transport_error_is(e, ErrorCategory::ResourceBusy, ErrorCode::UdpBindAddrBusy, message@, false),
    {
        TransportError {
            category: ErrorCategory::ResourceBusy,
            code: ErrorCode::UdpBindAddrBusy,
            message: message.to_owned(),
            fatal: false,
        }
    }

    pub fn invalid_address(message: &str) -> (e: Self)
        ensures
            transport_error_is(e, ErrorCategory::InvalidArgument, ErrorCode::InvalidAddress, message@, false),
    {
        TransportError {
            category: ErrorCategory::InvalidArgument,
            code: ErrorCode::InvalidAddress,
            message: message.to_owned(),
            fatal: false,
        }
    }

    /// A copy with the same parts.
    pub fn duplicate(&self) -> (e: Self)
        ensures
            e == *self,
    {
        TransportError {
            category: self.category,
            code: self.code,
            message: self.message.clone(),
            fatal: self.fatal,
        }
    }
}

/// Ports found open by a scan.
#[derive(Debug, Clone)]
pub struct ScanResult {
    pub open_ports: Vec<u16>,
}

/// The kinds of I/O failure the transports tell apart.
#[derive(Debug, Clone, Copy, PartialEq, Eq, Structural)]
pub enum IoKind {
    TimedOut,
    WouldBlock,
    AddrInUse,
    BrokenPipe,
    ConnectionReset,
    PermissionDenied,
    NotFound,
    Other,
}

/// A failed TCP connect: a time-out, or a closed transport.
pub fn map_tcp_connect_error(kind: IoKind) -> (e: TransportError)
    ensures
        if kind == IoKind::TimedOut {
            transport_error_is(e, ErrorCategory::ConnectTimeout, ErrorCode::ConnectTimeout, "tcp connect timed out"@, true)
        } else {
            transport_error_is(e, ErrorCategory::WriteFailed, ErrorCode::TransportClosed, "tcp connect failed"@, true)
        },
{
    if kind == IoKind::TimedOut {
        TransportError::connect_timeout("tcp connect timed out")
    } else {
        TransportError::transport_closed("tcp connect failed")
    }
}

/// A failed TCP listen bind: a busy address, or an I/O failure.
pub fn map_tcp_bind_error(kind: IoKind) -> (e: TransportError)
    ensures
        if kind == IoKind::AddrInUse {
            transport_error_is(e, ErrorCategory::ResourceBusy, ErrorCode::TcpListenAddrBusy, "tcp listen address is already in use"@, false)
        } else {
            transport_error_is(e, ErrorCategory::WriteFailed, ErrorCode::WriteIoFailed, "tcp listen bind failed"@, true)
        },
{
    if kind == IoKind::AddrInUse {
        TransportError::tcp_listen_busy("tcp listen address is already in use")
    } else {
        TransportError::write_failed(ErrorCode::WriteIoFailed, "tcp listen bind failed")
    }
}

/// A failed UDP bind: a busy address, or an I/O failure.
pub fn map_udp_bind_error(kind: IoKind) -> (e: TransportError)
    ensures
        if kind == IoKind::AddrInUse {
            transport_error_is(e, ErrorCategory::ResourceBusy, ErrorCode::UdpBindAddrBusy, "udp bind address is already in use"@, false)
        } else {
            transport_error_is(e, ErrorCategory::WriteFailed, ErrorCode::WriteIoFailed, "udp bind failed"@, true)
        },
{
    if kind == IoKind::AddrInUse {
        TransportError::udp_bind_busy("udp bind address is already in use")
    } else {
        TransportError::write_failed(ErrorCode::WriteIoFailed, "udp bind failed")
    }
}

/// A failed read: a time-out (also when it would block), or an I/O failure.
pub fn map_read_error(kind: IoKind) -> (e: TransportError)
    ensures
        if kind == IoKind::TimedOut || kind == IoKind::WouldBlock {
            transport_error_is(e, ErrorCategory::ReadTimeout, ErrorCode::ReadTimeout, "transport read timed out"@, false)
        } else {
            transport_error_is(e, ErrorCategory::WriteFailed, ErrorCode::ReadIoFailed, "transport read failed"@, true)
        },
{
    if kind == IoKind::TimedOut || kind == IoKind::WouldBlock {
        TransportError::read_timeout("transport read timed out")
    } else {
        TransportError::write_failed(ErrorCode::ReadIoFailed, "transport read failed")
    }
}

/// A failed write: the peer went away, or an I/O failure.
pub fn map_write_error(kind: IoKind) -> (e: TransportError)
    ensures
        if kind == IoKind::BrokenPipe || kind == IoKind::ConnectionReset {
            transport_error_is(e, ErrorCategory::WriteFailed, ErrorCode::TransportClosed, "transport peer closed"@, true)
        } else {
            transport_error_is(e, ErrorCategory::WriteFailed, ErrorCode::WriteIoFailed, "transport write failed"@, true)
        },
{
    if kind == IoKind::BrokenPipe || kind == IoKind::ConnectionReset {
        TransportError::transport_closed("transport peer closed")
    } else {
        TransportError::write_failed(ErrorCode::WriteIoFailed, "transport write failed")
    }
}

/// The trimmed host is a single loopback IP address.
pub open spec fn loopback_single_host(host: Seq<char>) -> bool {
    match parse_ip(encode_utf8(trim(host))) {
        Some(ip) => is_loopback_ip(ip) && trim(host) != "0.0.0.0"@ && trim(host) != "::"@,
        None => false,
    }
}

fn ip_loopback(ip: &IpAddress) -> (b: bool)
    requires
        ip.wf(),
    ensures
        b == is_loopback_ip(ip@),
{
    match ip {
        IpAddress::V4(o) => {
            proof {
                assert(octets_view(o@)[0] == o@[0] as int);
            }
            o[0] == 127
        },
        IpAddress::V6(g) => {
            let yes = g[0] == 0 && g[1] == 0 && g[2] == 0 && g[3] == 0 && g[4] == 0 && g[5] == 0
                && g[6] == 0 && g[7] == 1;
            proof {
                let v = groups_view(g@);
                assert(v[0] == g@[0] as int && v[1] == g@[1] as int && v[2] == g@[2] as int);
                assert(v[3] == g@[3] as int && v[4] == g@[4] as int && v[5] == g@[5] as int);
                assert(v[6] == g@[6] as int && v[7] == g@[7] as int);
                if yes {
                    assert(v =~= seq![0int, 0, 0, 0, 0, 0, 0, 1]);
                }
            }
            yes
        },
    }
}

/// Whether `host` is a single loopback address.
pub fn is_loopback_single_host(host: &str) -> (b: bool)
    ensures
        b == loopback_single_host(host@),
{
    let trimmed = str_trim(host);
    match parse_ip_exec(trimmed.as_bytes()) {
        Some(ip) => ip_loopback(&ip) && !crate::util::text::str_eq(trimmed, "0.0.0.0")
            && !crate::util::text::str_eq(trimmed, "::"),
        None => false,
    }
}

/// Network transports only reach loopback hosts.
pub fn ensure_loopback_host(host: &str) -> (r: Result<(), TransportError>)
    ensures
        match r {
            Ok(()) => loopback_single_host(host@),
            Err(e) => !loopback_single_host(host@) && transport_error_is(
                e,
                ErrorCategory::InvalidArgument,
                ErrorCode::InvalidAddress,
                "network transport is restricted to loopback during M5"@,
                false,
            ),
        },
{
    if is_loopback_single_host(host) {
        Ok(())
    } else {
        Err(TransportError::invalid_address("network transport is restricted to loopback during M5"))
    }
}

/// The most ports one scan probes.
pub const SCAN_MAX_PORTS: usize = 256;

/// The most probes one scan runs at once.
pub const SCAN_MAX_CONCURRENCY: usize = 64;

/// The outcome of checking a loopback scan request: the host must be a
/// single loopback address, the range must not be reversed, and it must
/// cover at most 256 ports with a concurrency of 1 to 64. Gives the number
/// of ports.
pub open spec fn scan_request_outcome(
    host: Seq<char>,
    start_port: int,
    end_port: int,
    max_concurrency: int,
    r: Result<usize, DomainError>,
) -> bool {
    if !loopback_single_host(host) {
        r matches Err(e) && e.category == ErrorCategory::InvalidArgument && e.code
            == ErrorCode::ScanTargetNotAllowed && e.details@ == seq![("field"@, DetailView::Text("host"@))]
    } else if end_port < start_port {
        r matches Err(e) && e.category == ErrorCategory::InvalidArgument && e.code
            == ErrorCode::InvalidRange && e.details@ == seq![("field"@, DetailView::Text("end_port"@))]
    } else if end_port - start_port + 1 > 256 || max_concurrency == 0 || max_concurrency > 64 {
        r matches Err(e) && crate::model::limits::budget_error(
            e,
            ErrorCode::ScanRangeTooLarge,
            false,
            256,
            end_port - start_port + 1,
        )
    } else {
        r == Ok::<usize, DomainError>((end_port - start_port + 1) as usize)
    }
}

/// What a scan of the ports from `start_port` on reports, where
/// `reachable[i]` says whether port `start_port + i` accepted a connection:
/// exactly the ports that did, in ascending order.
pub fn scan_result(start_port: u16, reachable: &Vec<bool>) -> (r: ScanResult)
    requires
        start_port as int + reachable@.len() <= 65536,
    ensures
        forall|a: int, b: int|
            0 <= a < b < r.open_ports@.len() ==> r.open_ports@[a] < r.open_ports@[b],
        forall|p: u16|
            r.open_ports@.contains(p) <==> (start_port <= p < start_port as int + reachable@.len()
                && reachable@[p - start_port]),
{
    let mut open_ports: Vec<u16> = Vec::new();
    let mut i: usize = 0;
    while i < reachable.len()
        invariant
            start_port as int + reachable@.len() <= 65536,
            i <= reachable@.len(),
            forall|a: int, b: int| 0 <= a < b < open_ports@.len() ==> open_ports@[a] < open_ports@[b],
            forall|a: int|
                0 <= a < open_ports@.len() ==> start_port <= #[trigger] open_ports@[a] < start_port as int + i
                    && reachable@[open_ports@[a] - start_port],
            forall|j: int|
                0 <= j < i && #[trigger] reachable@[j] ==> open_ports@.contains((start_port + j) as u16),
        decreases reachable@.len() - i,
    {
        if reachable[i] {
            let ghost before = open_ports@;
            open_ports.push(start_port + i as u16);
            assert(open_ports@.last() == (start_port + i) as u16);
            assert forall|j: int| 0 <= j < i + 1 && #[trigger] reachable@[j] implies open_ports@.contains(
                (start_port + j) as u16,
            ) by {
                if j < i {
                    let k = choose|k: int| 0 <= k < before.len() && before[k] == (start_port + j) as u16;
                    assert(open_ports@[k] == before[k]);
                } else {
                    assert(open_ports@[open_ports@.len() - 1] == (start_port + j) as u16);
                }
            }
        }
        i = i + 1;
    }
    proof {
        assert forall|p: u16| open_ports@.contains(p) <==> (start_port <= p < start_port as int
            + reachable@.len() && reachable@[p - start_port]) by {
            if start_port <= p < start_port as int + reachable@.len() && reachable@[p - start_port] {
                assert(reachable@[p - start_port]);
                assert((start_port + (p - start_port)) as u16 == p);
            }
        }
    }
    ScanResult { open_ports }
}

/// Checks the arguments of a loopback port scan before any probe is made.
pub fn validate_scan_request(host: &str, start_port: u16, end_port: u16, max_concurrency: usize) -> (r:
    Result<usize, DomainError>)
    ensures
        scan_request_outcome(host@, start_port as int, end_port as int, max_concurrency as int, r),
{
    if !is_loopback_single_host(host) {
        let e = DomainError::invalid_argument(
            ErrorCode::ScanTargetNotAllowed,
            "port_scan target must be a loopback single host.",
            "Use 127.0.0.1 or ::1 for initial loopback scanning.",
        ).with_detail("field", DetailValue::Text("host".to_owned()));
        assert(e.details@ =~= seq![("field"@, DetailView::Text("host"@))]);
        return Err(e);
    }
    if end_port < start_port {
        let e = DomainError::invalid_argument(
            ErrorCode::InvalidRange,
            "port_scan end_port must be greater than or equal to start_port.",
            "Use a valid inclusive port range.",
        ).with_detail("field", DetailValue::Text("end_port".to_owned()));
        assert(e.details@ =~= seq![("field"@, DetailView::Text("end_port"@))]);
        return Err(e);
    }
    let port_count = (end_port - start_port) as usize + 1;
    if port_count > SCAN_MAX_PORTS || max_concurrency == 0 || max_concurrency > SCAN_MAX_CONCURRENCY {
        return Err(
            crate::model::limits::budget_exceeded(
                ErrorCode::ScanRangeTooLarge,
                "port_scan range or concurrency exceeds the M5 loopback limit.",
                "Reduce port range to at most 256 ports and concurrency to 1..64.",
                false,
                SCAN_MAX_PORTS,
                port_count,
            ),
        );
    }
    Ok(port_count)
}

} // verus!
